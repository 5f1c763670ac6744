//! A front-end facade over the machine: the calls an embedder (a web page,
//! a desktop window) makes, with the framebuffer and registers handed out
//! as plain values.
use vstd::prelude::*;

use crate::cpu::{Cpu, STEPS_PER_FRAME};
use crate::semantics::{initial_state, loaded_memory, run_spec, step_spec, tick, Fault, MachineState};
use crate::keypad::Keypad;

verus! {

/// A machine owned by a front end.
pub struct Chip8 {
    cpu: Cpu,
}

/// The framebuffer row-major, one byte per pixel: 1 lit, 0 off.
pub open spec fn contents_of(screen: Seq<Seq<bool>>) -> Seq<u8> {
    Seq::new(2048, |p: int| if screen[p / 64][p % 64] { 1u8 } else { 0u8 })
}

impl View for Chip8 {
    type V = MachineState;

    closed spec fn view(&self) -> MachineState {
        self.cpu@
    }
}

impl Chip8 {
    /// A machine in its initial state with no key held down.
    pub fn new() -> (r: Chip8)
        ensures
            r@ == initial_state(Seq::new(16, |k: int| false)),
    {
        let keypad = Keypad::new();
        Chip8 { cpu: Cpu::new(keypad) }
    }

    /// The framebuffer, row-major, 1 for a lit pixel and 0 for an unlit one.
    pub fn get_contents(&mut self) -> (r: Vec<u8>)
        requires
            old(self)@.wf(),
        ensures
            final(self)@.wf(),
            final(self)@ == old(self)@,
            r@ == contents_of(old(self)@.screen),
    {
        let mut out: Vec<u8> = Vec::new();
        let mut y: usize = 0;
        while y < 32
            invariant
                y <= 32,
                *self == *old(self),
                out@.len() == y * 64,
                forall|p: int| 0 <= p < y * 64 ==> #[trigger] out@[p] == contents_of(self@.screen)[p],
            decreases 32 - y,
        {
            let mut x: usize = 0;
            while x < 64
                invariant
                    y < 32,
                    x <= 64,
                    *self == *old(self),
                    out@.len() == y * 64 + x,
                    forall|p: int| 0 <= p < y * 64 + x ==> #[trigger] out@[p] == contents_of(self@.screen)[p],
                decreases 64 - x,
            {
                let lit = self.cpu.video_memory[y][x];
                out.push(if lit { 1 } else { 0 });
                proof {
                    let p = y * 64 + x;
                    assert(p / 64 == y && p % 64 == x) by (nonlinear_arith)
                        requires
                            p == y * 64 + x,
                            x < 64,
                    ;
                }
                x = x + 1;
            }
            y = y + 1;
        }
        assert(out@ =~= contents_of(self@.screen));
        out
    }

    /// Copies program bytes into memory at the load address; bytes past the
    /// end of memory are dropped.
    pub fn load_content(&mut self, data: &[u8])
        requires
            old(self)@.wf(),
        ensures
            final(self)@.wf(),
            final(self)@ == (MachineState { memory: loaded_memory(old(self)@.memory, data@), ..old(self)@ }),
    {
        self.cpu.load_program(data);
    }

    /// Runs one frame: a delay-timer tick and up to `STEPS_PER_FRAME` steps,
    /// stopping at the first fault.
    pub fn execute_cycle(&mut self) -> (r: Result<(), Fault>)
        requires
            old(self)@.wf(),
        ensures
            final(self)@.wf(),
            exists|randoms: Seq<Option<u8>>|
                randoms.len() <= STEPS_PER_FRAME && run_spec(tick(old(self)@), randoms) == (final(self)@, r)
                    && (r is Ok ==> randoms.len() == STEPS_PER_FRAME),
    {
        match self.cpu.execute_cycle() {
            Ok(_) => Ok(()),
            Err(f) => Err(f),
        }
    }

    /// Executes one step.
    pub fn execute_next_op_code(&mut self) -> (r: Result<(), Fault>)
        requires
            old(self)@.wf(),
        ensures
            final(self)@.wf(),
            exists|random: Option<u8>| (final(self)@, r) == step_spec(old(self)@, random),
    {
        self.cpu.execute_next_op_code()
    }

    /// Marks `key` as held down.
    pub fn press_key(&mut self, key: u8)
        requires
            old(self)@.wf(),
            key < 16,
        ensures
            final(self)@.wf(),
            final(self)@ == (MachineState { keys: old(self)@.keys.update(key as int, true), ..old(self)@ }),
    {
        self.cpu.keypad.press_key(key);
    }

    /// Marks `key` as released.
    pub fn release_key(&mut self, key: u8)
        requires
            old(self)@.wf(),
            key < 16,
        ensures
            final(self)@.wf(),
            final(self)@ == (MachineState { keys: old(self)@.keys.update(key as int, false), ..old(self)@ }),
    {
        self.cpu.keypad.release_key(key);
    }

    /// Marks every key as released.
    pub fn release_all_keys(&mut self)
        requires
            old(self)@.wf(),
        ensures
            final(self)@.wf(),
            final(self)@ == (MachineState { keys: Seq::new(16, |k: int| false), ..old(self)@ }),
    {
        self.cpu.keypad.release_all_keys();
    }

    /// The sixteen general-purpose registers.
    pub fn get_v_register(&mut self) -> (r: Vec<u8>)
        requires
            old(self)@.wf(),
        ensures
            final(self)@.wf(),
            final(self)@ == old(self)@,
            r@ == old(self)@.v,
    {
        let mut out: Vec<u8> = Vec::new();
        let mut k: usize = 0;
        while k < 16
            invariant
                k <= 16,
                *self == *old(self),
                out@ == self@.v.subrange(0, k as int),
            decreases 16 - k,
        {
            out.push(self.cpu.registers.v[k]);
            assert(out@ =~= self@.v.subrange(0, k + 1));
            k = k + 1;
        }
        assert(out@ =~= self@.v);
        out
    }

    /// The index register.
    pub fn get_i_register(&mut self) -> (r: u16)
        requires
            old(self)@.wf(),
        ensures
            final(self)@.wf(),
            final(self)@ == old(self)@,
            r == old(self)@.i,
    {
        self.cpu.registers.i
    }

    /// The program counter.
    pub fn get_program_counter(&mut self) -> (r: u16)
        requires
            old(self)@.wf(),
        ensures
            final(self)@.wf(),
            final(self)@ == old(self)@,
            r == old(self)@.pc,
    {
        self.cpu.program_counter
    }

    /// Returns the machine to its initial state; the keys held down stay.
    pub fn reset(&mut self)
        requires
            old(self)@.wf(),
        ensures
            final(self)@.wf(),
            final(self)@ == initial_state(old(self)@.keys),
    {
        self.cpu.reset();
    }
}

} // verus!
