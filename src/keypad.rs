//! The 16-key input matrix.
use vstd::prelude::*;

verus! {

/// Number of keys in the matrix.
pub const KEY_COUNT: usize = 16;

/// Which of the sixteen keys are held down.
pub struct Keypad {
    keys: [bool; 16],
}

/// The lowest key held down in `keys`, if any.
pub open spec fn first_pressed(keys: Seq<bool>) -> Option<u8> {
    if exists|k: int| 0 <= k < keys.len() && keys[k] {
        let k = choose|k: int| 0 <= k < keys.len() && keys[k] && (forall|j: int| 0 <= j < k ==> !keys[j]);
        Some(k as u8)
    } else {
        None
    }
}

impl View for Keypad {
    type V = Seq<bool>;

    /// Entry `k` is whether key `k` is held down.
    closed spec fn view(&self) -> Seq<bool> {
        self.keys@
    }
}

impl Keypad {
    /// The matrix has sixteen keys.
    pub proof fn lemma_len(&self)
        ensures
            self@.len() == 16,
    {
    }

    /// A matrix with no key held down.
    pub fn new() -> (r: Keypad)
        ensures
            r@ == Seq::new(16, |k: int| false),
    {
        let r = Keypad { keys: [false; 16] };
        assert(r@ =~= Seq::new(16, |k: int| false));
        r
    }

    /// The lowest-numbered key held down, or `None` when none is.
    pub fn get_first_pressed_key(&mut self) -> (r: Option<u8>)
        ensures
            *final(self) == *old(self),
            r == first_pressed(old(self)@),
            r matches Some(k) ==> k < 16 && old(self)@[k as int] && (forall|j: int|
                0 <= j < k ==> !old(self)@[j]),
            r is None ==> forall|j: int| 0 <= j < 16 ==> !old(self)@[j],
    {
        let mut i: usize = 0;
        while i < KEY_COUNT
            invariant
                i <= 16,
                *self == *old(self),
                forall|j: int| 0 <= j < i ==> !self@[j],
            decreases 16 - i,
        {
            if self.key_is_pressed(i as u8) {
                proof {
                    let w = choose|k: int|
                        0 <= k < self@.len() && self@[k] && (forall|j: int| 0 <= j < k ==> !self@[j]);
                    assert(0 <= i < self@.len() && self@[i as int] && (forall|j: int|
                        0 <= j < i ==> !self@[j]));
                    if w < i {
                    } else if w > i {
                        assert(!self@[i as int]);
                    }
                }
                return Some(i as u8);
            }
            i = i + 1;
        }
        None
    }

    /// Whether `key` is held down.
    pub fn key_is_pressed(&mut self, key: u8) -> (r: bool)
        requires
            key < 16,
        ensures
            *final(self) == *old(self),
            r == old(self)@[key as int],
    {
        self.keys[key as usize]
    }

    /// Marks `key` as held down.
    pub fn press_key(&mut self, key: u8)
        requires
            key < 16,
        ensures
            final(self)@ == old(self)@.update(key as int, true),
    {
        self.keys[key as usize] = true;
    }

    /// Marks `key` as released.
    pub fn release_key(&mut self, key: u8)
        requires
            key < 16,
        ensures
            final(self)@ == old(self)@.update(key as int, false),
    {
        self.keys[key as usize] = false;
    }

    /// Marks every key as released.
    pub fn release_all_keys(&mut self)
        ensures
            final(self)@ == Seq::new(16, |k: int| false),
    {
        self.keys = [false; 16];
        assert(self@ =~= Seq::new(16, |k: int| false));
    }
}

} // verus!
