//! General facts about the instruction semantics, proved from the
//! definitions that the interpreter's contracts use.
use vstd::prelude::*;

use crate::cpu::{MEMORY_SIZE, PC_STEP, PROGRAM_START, STACK_DEPTH};
use crate::instruction::Instruction;
use crate::semantics::{execute_spec, flag, loaded_memory, sprite_bit, sprite_hit, MachineState};

verus! {

/// Adding an immediate wraps modulo 256 and leaves every other register,
/// the flag register included, as it was. Adding two registers stores the
/// low byte of the sum and sets `v[15]` to 1 exactly when the sum exceeds 255.
pub proof fn lemma_add_wraps(s: MachineState, x: u8, y: u8, kk: u8, random: Option<u8>)
    requires
        s.valid(),
        x < 16,
        y < 16,
    ensures
        execute_spec(s, Instruction::AddImmediate { x, kk }, random) matches Ok(t) && t.v[x as int] == (
        s.v[x as int] + kk) % 256 && forall|r: int| 0 <= r < 16 && r != x ==> t.v[r] == s.v[r],
        execute_spec(s, Instruction::AddRegister { x, y }, random) matches Ok(t) && t.v[15] == (if s.v[x as int]
            + s.v[y as int] > 255 {
            1u8
        } else {
            0u8
        }) && (x != 15 ==> t.v[x as int] == (s.v[x as int] + s.v[y as int]) % 256),
{
}

/// Both subtractions set `v[15]` to whether no borrow occurs, judged on the
/// operands before the subtraction, and store the difference, or 0 where it
/// would be negative.
pub proof fn lemma_subtract_flag(s: MachineState, x: u8, y: u8, random: Option<u8>)
    requires
        s.valid(),
        x < 15,
        y < 16,
    ensures
        execute_spec(s, Instruction::Subtract { x, y }, random) matches Ok(t) && t.v[15] == flag(
            s.v[x as int] > s.v[y as int],
        ) && t.v[x as int] == (if s.v[x as int] >= s.v[y as int] {
            s.v[x as int] - s.v[y as int]
        } else {
            0
        }),
        execute_spec(s, Instruction::SubtractReversed { x, y }, random) matches Ok(t) && t.v[15] == flag(
            s.v[y as int] > s.v[x as int],
        ) && t.v[x as int] == (if s.v[y as int] >= s.v[x as int] {
            s.v[y as int] - s.v[x as int]
        } else {
            0
        }),
{
}

/// Shifting right puts the bit shifted out, the lowest, in `v[15]`;
/// shifting left puts the highest there. Both results fit in a byte.
pub proof fn lemma_shift_flags(s: MachineState, x: u8, random: Option<u8>)
    requires
        s.valid(),
        x < 15,
    ensures
        execute_spec(s, Instruction::ShiftRight { x }, random) matches Ok(t) && t.v[15] == s.v[x as int] % 2
            && t.v[x as int] == s.v[x as int] / 2,
        execute_spec(s, Instruction::ShiftLeft { x }, random) matches Ok(t) && t.v[15] == s.v[x as int] / 128
            && t.v[x as int] == (s.v[x as int] * 2) % 256,
{
}

/// A sprite's pixel in row `r`, column `c` lands on column `(vx + c) % 64`
/// and row `(vy + r) % 32`, which it flips when its bit is set; and `v[15]`
/// ends 1 exactly when some set bit lands on a lit pixel.
pub proof fn lemma_draw_wraps(s: MachineState, x: u8, y: u8, n: u8, random: Option<u8>)
    requires
        s.valid(),
        x < 16,
        y < 16,
        n < 16,
        s.i + n <= MEMORY_SIZE,
    ensures
        execute_spec(s, Instruction::Draw { x, y, n }, random) matches Ok(t) && (forall|r: int, c: int|
            0 <= r < n && 0 <= c < 8 ==> #[trigger] t.screen[(s.v[y as int] + r) % 32][(s.v[x as int] + c)
                % 64] == (s.screen[(s.v[y as int] + r) % 32][(s.v[x as int] + c) % 64] != sprite_bit(
                s.memory[s.i + r],
                c,
            ))) && (t.v[15] == 1 <==> exists|r: int, c: int|
            0 <= r < n && 0 <= c < 8 && #[trigger] sprite_bit(s.memory[s.i + r], c) && s.screen[(s.v[y as int]
                + r) % 32][(s.v[x as int] + c) % 64]),
{
    let vx = s.v[x as int];
    let vy = s.v[y as int];
    assert forall|r: int, c: int| 0 <= r < n && 0 <= c < 8 implies sprite_hit(
        s.memory,
        s.i,
        vx,
        vy,
        n,
        (vy + r) % 32,
        (vx + c) % 64,
    ) == #[trigger] sprite_bit(s.memory[s.i + r], c) by {
        lemma_offset(vy as int, r, 32);
        lemma_offset(vx as int, c, 64);
    }
    let collide = exists|r: int, c: int|
        0 <= r < n && 0 <= c < 8 && #[trigger] sprite_bit(s.memory[s.i + r], c) && s.screen[(vy + r)
            % 32][(vx + c) % 64];
    if collide {
        let (r, c) = choose|r: int, c: int|
            0 <= r < n && 0 <= c < 8 && #[trigger] sprite_bit(s.memory[s.i + r], c) && s.screen[(vy + r)
                % 32][(vx + c) % 64];
        lemma_offset(vy as int, r, 32);
        lemma_offset(vx as int, c, 64);
        assert(s.screen[(vy + r) % 32][(vx + c) % 64] && sprite_hit(
            s.memory,
            s.i,
            vx,
            vy,
            n,
            (vy + r) % 32,
            (vx + c) % 64,
        ));
    }
    if exists|py: int, px: int|
        0 <= py < 32 && 0 <= px < 64 && #[trigger] s.screen[py][px] && sprite_hit(
            s.memory,
            s.i,
            vx,
            vy,
            n,
            py,
            px,
        ) {
        let (py, px) = choose|py: int, px: int|
            0 <= py < 32 && 0 <= px < 64 && #[trigger] s.screen[py][px] && sprite_hit(
                s.memory,
                s.i,
                vx,
                vy,
                n,
                py,
                px,
            );
        let r = (py - vy) % 32;
        let c = (px - vx) % 64;
        lemma_back(vy as int, py, 32);
        lemma_back(vx as int, px, 64);
        assert(sprite_bit(s.memory[s.i + r], c) && s.screen[(vy + r) % 32][(vx + c) % 64]);
    }
}

/// `(base + off) % m` taken back by `base` gives `off`.
proof fn lemma_offset(base: int, off: int, m: int)
    requires
        0 <= base,
        0 <= off < m,
        m == 32 || m == 64,
    ensures
        ((base + off) % m - base) % m == off,
        0 <= (base + off) % m < m,
{
}

/// Moving `q` back by `base` and forward again returns to `q`.
proof fn lemma_back(base: int, q: int, m: int)
    requires
        0 <= base,
        0 <= q < m,
        m == 32 || m == 64,
    ensures
        (base + (q - base) % m) % m == q,
{
}

/// Clearing the screen turns every pixel off.
pub proof fn lemma_clear_screen(s: MachineState, random: Option<u8>)
    requires
        s.valid(),
    ensures
        execute_spec(s, Instruction::ClearScreen, random) matches Ok(t) && forall|py: int, px: int|
            0 <= py < 32 && 0 <= px < 64 ==> !#[trigger] t.screen[py][px],
{
}

/// A call pushes the address after it and jumps; a return right after it
/// pops that address, back to the pre-call stack depth.
pub proof fn lemma_call_return(s: MachineState, addr: u16, random: Option<u8>)
    requires
        s.valid(),
        s.sp < STACK_DEPTH,
        s.pc + PC_STEP <= MEMORY_SIZE,
    ensures
        execute_spec(s, Instruction::Call { addr }, random) matches Ok(t) && t.pc == addr && t.sp == s.sp + 1
            && t.stack[s.sp as int] == s.pc + PC_STEP && (execute_spec(t, Instruction::Return, random) matches Ok(
            u,
        ) && u.pc == s.pc + PC_STEP && u.sp == s.sp),
{
}

/// Whether the skip instruction `ins` skips in `s`; `None` for any other
/// instruction.
pub open spec fn skip_taken(s: MachineState, ins: Instruction) -> Option<bool> {
    match ins {
        Instruction::SkipIfEqualImmediate { x, kk } => Some(s.v[x as int] == kk),
        Instruction::SkipIfNotEqualImmediate { x, kk } => Some(s.v[x as int] != kk),
        Instruction::SkipIfEqualRegister { x, y } => Some(s.v[x as int] == s.v[y as int]),
        Instruction::SkipIfNotEqualRegister { x, y } => Some(s.v[x as int] != s.v[y as int]),
        Instruction::SkipIfKeyPressed { x } => Some(s.keys[s.v[x as int] as int]),
        Instruction::SkipIfKeyNotPressed { x } => Some(!s.keys[s.v[x as int] as int]),
        _ => None,
    }
}

/// A skip instruction moves the program counter two steps when its
/// condition holds and one step otherwise (a key query needs a key number
/// below 16 in its register).
pub proof fn lemma_skip_distance(s: MachineState, ins: Instruction, random: Option<u8>)
    requires
        s.valid(),
        ins.wf(),
        skip_taken(s, ins) is Some,
        s.pc + PC_STEP <= MEMORY_SIZE,
        ins matches Instruction::SkipIfKeyPressed { x } ==> s.v[x as int] < 16,
        ins matches Instruction::SkipIfKeyNotPressed { x } ==> s.v[x as int] < 16,
    ensures
        execute_spec(s, ins, random) matches Ok(t) && t.pc == s.pc + if skip_taken(s, ins) == Some(true) {
            2 * PC_STEP as int
        } else {
            PC_STEP as int
        },
{
}

/// Loading a program keeps memory at its size, and puts each program byte
/// that fits at its address; the last memory byte is the program byte that
/// falls on it.
pub proof fn lemma_load_truncates(memory: Seq<u8>, program: Seq<u8>)
    requires
        memory.len() == MEMORY_SIZE,
    ensures
        loaded_memory(memory, program).len() == MEMORY_SIZE,
        forall|a: int|
            PROGRAM_START <= a < MEMORY_SIZE && a - PROGRAM_START < program.len() ==> #[trigger] loaded_memory(
                memory,
                program,
            )[a] == program[a - PROGRAM_START],
        program.len() >= MEMORY_SIZE - PROGRAM_START ==> loaded_memory(memory, program)[MEMORY_SIZE - 1]
            == program[MEMORY_SIZE - 1 - PROGRAM_START],
{
}

/// For a digit `d` below 16 the font instruction points the index register
/// at `d * 5`, the start of that digit's glyph inside the font.
pub proof fn lemma_font_address(s: MachineState, x: u8, random: Option<u8>)
    requires
        s.valid(),
        x < 16,
        s.v[x as int] < 16,
    ensures
        execute_spec(s, Instruction::FontCharacter { x }, random) matches Ok(t) && t.i == s.v[x as int] * 5
            && t.i + 5 <= 80,
{
}

} // verus!
