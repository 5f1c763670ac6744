//! Splitting a 16-bit instruction word into 4-bit fields, and joining fields
//! back into immediates and addresses.
use vstd::prelude::*;

verus! {

/// The `k`-th 4-bit field of `word`, counted from the most significant end
/// (`k` in `0..4`).
pub open spec fn nibble_of(word: u16, k: int) -> u8 {
    ((word as int / pow16(3 - k)) % 16) as u8
}

/// `16` to the power `e`, for small `e`.
pub open spec fn pow16(e: int) -> int {
    if e <= 0 {
        1
    } else if e == 1 {
        16
    } else if e == 2 {
        256
    } else {
        4096
    }
}

/// Bits 12 to 15 of `hextet`.
pub fn get_nibble_1(hextet: u16) -> (r: u8)
    ensures
        r == nibble_of(hextet, 0),
        r == hextet / 4096,
        r < 16,
{
    let r = ((hextet & 0xF000) >> 12) as u8;
    assert(((hextet & 0xF000) >> 12) == hextet / 4096) by (bit_vector);
    r
}

/// Bits 8 to 11 of `hextet`.
pub fn get_nibble_2(hextet: u16) -> (r: u8)
    ensures
        r == nibble_of(hextet, 1),
        r == (hextet / 256) % 16,
        r < 16,
{
    let r = ((hextet & 0x0F00) >> 8) as u8;
    assert(((hextet & 0x0F00) >> 8) == (hextet / 256) % 16) by (bit_vector);
    r
}

/// Bits 4 to 7 of `hextet`.
pub fn get_nibble_3(hextet: u16) -> (r: u8)
    ensures
        r == nibble_of(hextet, 2),
        r == (hextet / 16) % 16,
        r < 16,
{
    let r = ((hextet & 0x00F0) >> 4) as u8;
    assert(((hextet & 0x00F0) >> 4) == (hextet / 16) % 16) by (bit_vector);
    r
}

/// Bits 0 to 3 of `hextet`.
pub fn get_nibble_4(hextet: u16) -> (r: u8)
    ensures
        r == nibble_of(hextet, 3),
        r == hextet % 16,
        r < 16,
{
    let r = (hextet & 0x000F) as u8;
    assert((hextet & 0x000F) == hextet % 16) by (bit_vector);
    r
}

/// `nibble1` shifted into the high half of a byte, or-ed with `nibble2`.
/// Bits of `nibble1` above the low four are shifted out of the byte.
pub fn concat_nibbles_2(nibble1: u8, nibble2: u8) -> (r: u8)
    ensures
        r == concat_byte(nibble1, nibble2),
        nibble1 < 16 && nibble2 < 16 ==> r == nibble1 * 16 + nibble2,
{
    let r = (nibble1 << 4) | nibble2;
    assert((nibble1 << 4) == ((nibble1 as u16 * 16) % 256) as u8) by (bit_vector);
    assert(nibble1 < 16 && nibble2 < 16 ==> ((nibble1 << 4) | nibble2) == nibble1 * 16 + nibble2)
        by (bit_vector);
    r
}

/// Three fields joined into a 12-bit address: `nibble1` highest.
pub fn concat_nibbles_3(nibble1: u8, nibble2: u8, nibble3: u8) -> (r: u16)
    ensures
        r == concat_word(nibble1, nibble2, nibble3),
        nibble1 < 16 && nibble2 < 16 && nibble3 < 16 ==> r == nibble1 * 256 + nibble2 * 16 + nibble3,
{
    let hi = concat_nibbles_2(nibble1, nibble2);
    let r = ((hi as u16) << 4) | (nibble3 as u16);
    if nibble1 < 16 && nibble2 < 16 && nibble3 < 16 {
        let lo = nibble3 as u16;
        let h = hi as u16;
        assert(h < 256 && lo < 16 ==> ((h << 4) | lo) == h * 16 + lo) by (bit_vector);
    }
    r
}

/// What `concat_nibbles_2` returns.
pub open spec fn concat_byte(nibble1: u8, nibble2: u8) -> u8 {
    ((((nibble1 as int) * 16) % 256) as u8 | nibble2)
}

/// What `concat_nibbles_3` returns.
pub open spec fn concat_word(nibble1: u8, nibble2: u8, nibble3: u8) -> u16 {
    ((concat_byte(nibble1, nibble2) as u16) << 4u16) | (nibble3 as u16)
}

} // verus!
