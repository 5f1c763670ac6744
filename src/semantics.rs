//! The machine as mathematical values, and what each instruction, each
//! interpreter step and each frame does to it.
use vstd::prelude::*;

use crate::cpu::{DISPLAY_HEIGHT, DISPLAY_WIDTH, MEMORY_SIZE, PC_STEP, PROGRAM_START, STACK_DEPTH};
use crate::instruction::{decode_spec, Instruction};
use crate::keypad::first_pressed;

verus! {

/// Why a step could not be carried out.
#[derive(PartialEq, Eq, Structural, Clone, Copy, Debug)]
pub enum FaultKind {
    /// The instruction word at the program counter lies (partly) outside memory.
    ProgramCounterOutOfMemory,
    /// The instruction word matches no entry of the instruction table.
    UnknownOpcode,
    /// A subroutine call with every stack slot in use.
    StackOverflow,
    /// A return with no return address on the stack.
    StackUnderflow,
    /// A memory access through the index register past the end of memory.
    MemoryOutOfBounds,
    /// A key query with a register value outside `0..16`.
    KeyOutOfRange,
    /// Adding to the index register overflowed 16 bits.
    IndexOverflow,
    /// The operating system's random source could not be read.
    RandomSourceUnavailable,
}

/// A fatal condition, with the program counter and the instruction word at
/// which it arose (the word is 0 when it could not be fetched).
#[derive(PartialEq, Eq, Structural, Clone, Copy, Debug)]
pub struct Fault {
    pub kind: FaultKind,
    pub program_counter: u16,
    pub opcode: u16,
}

/// The machine as mathematical values.
pub struct MachineState {
    pub memory: Seq<u8>,
    /// `screen[y][x]`, `true` when lit.
    pub screen: Seq<Seq<bool>>,
    pub v: Seq<u8>,
    pub i: u16,
    pub delay_timer: u8,
    pub sound_timer: u8,
    pub pc: u16,
    pub stack: Seq<u16>,
    pub sp: usize,
    pub await_key: Option<u8>,
    pub keys: Seq<bool>,
}

/// A framebuffer with every pixel off.
pub open spec fn blank_screen() -> Seq<Seq<bool>> {
    Seq::new(32, |y: int| Seq::new(64, |x: int| false))
}

/// The sixteen 5-byte glyphs of the hexadecimal digits, as stored at address 0.
pub open spec fn font() -> Seq<u8> {
    seq![
        0xF0, 0x90, 0x90, 0x90, 0xF0, 0x20, 0x60, 0x20, 0x20, 0x70,
        0xF0, 0x10, 0xF0, 0x80, 0xF0, 0xF0, 0x10, 0xF0, 0x10, 0xF0,
        0x90, 0x90, 0xF0, 0x10, 0x10, 0xF0, 0x80, 0xF0, 0x10, 0xF0,
        0xF0, 0x80, 0xF0, 0x90, 0xF0, 0xF0, 0x10, 0x20, 0x40, 0x40,
        0xF0, 0x90, 0xF0, 0x90, 0xF0, 0xF0, 0x90, 0xF0, 0x10, 0xF0,
        0xF0, 0x90, 0xF0, 0x90, 0x90, 0xE0, 0x90, 0xE0, 0x90, 0xE0,
        0xF0, 0x80, 0x80, 0x80, 0xF0, 0xE0, 0x90, 0x90, 0x90, 0xE0,
        0xF0, 0x80, 0xF0, 0x80, 0xF0, 0xF0, 0x80, 0xF0, 0x80, 0x80,
    ]
}

/// Memory right after construction or reset: the font at address 0, zeros
/// elsewhere.
pub open spec fn initial_memory() -> Seq<u8> {
    Seq::new(4096, |a: int| if a < 80 { font()[a] } else { 0u8 })
}

/// The state that construction and reset produce, with the given keys.
pub open spec fn initial_state(keys: Seq<bool>) -> MachineState {
    MachineState {
        memory: initial_memory(),
        screen: blank_screen(),
        v: Seq::new(16, |r: int| 0u8),
        i: 0,
        delay_timer: 0,
        sound_timer: 0,
        pc: PROGRAM_START as u16,
        stack: Seq::new(16, |r: int| 0u16),
        sp: 0,
        await_key: None,
        keys,
    }
}

/// Memory after loading `program` at `PROGRAM_START`: bytes that would land
/// past the end of memory are dropped.
pub open spec fn loaded_memory(memory: Seq<u8>, program: Seq<u8>) -> Seq<u8> {
    Seq::new(
        memory.len(),
        |a: int|
            if PROGRAM_START <= a < PROGRAM_START + program.len() {
                program[a - PROGRAM_START]
            } else {
                memory[a]
            },
    )
}

/// `1` for `true`, `0` for `false`.
pub open spec fn flag(b: bool) -> u8 {
    if b {
        1
    } else {
        0
    }
}

/// `s` with the program counter moved past one instruction.
pub open spec fn advance(s: MachineState) -> MachineState {
    MachineState { pc: (s.pc + PC_STEP) as u16, ..s }
}

/// `s` with the program counter moved past two instructions when `cond`
/// holds, past one otherwise.
pub open spec fn skip_if(s: MachineState, cond: bool) -> MachineState {
    MachineState { pc: (s.pc + if cond { 2 * PC_STEP as int } else { PC_STEP as int }) as u16, ..s }
}

/// `s` with new general registers, then advanced.
pub open spec fn with_registers(s: MachineState, v: Seq<u8>) -> MachineState {
    advance(MachineState { v, ..s })
}

/// Bit `7 - col` of the sprite row `byte`: the pixel in column `col`.
pub open spec fn sprite_bit(byte: u8, col: int) -> bool {
    (byte >> ((7 - col) as u8)) & 1u8 == 1u8
}

/// Whether drawing an `n`-row sprite from `memory[i..]` at `(vx, vy)` flips
/// the pixel in row `py`, column `px`. The sprite wraps around the screen
/// edges: its pixel in row `r`, column `c` lands on
/// `((vx + c) % 64, (vy + r) % 32)`.
pub open spec fn sprite_hit(memory: Seq<u8>, i: u16, vx: u8, vy: u8, n: u8, py: int, px: int) -> bool {
    let r = (py - vy) % 32;
    let c = (px - vx) % 64;
    r < n && c < 8 && sprite_bit(memory[i + r], c)
}

/// The framebuffer after the sprite is XOR-ed onto it. The coordinates are
/// the register values before `v[15]` is cleared for the collision flag.
pub open spec fn drawn_screen(s: MachineState, vx: u8, vy: u8, n: u8) -> Seq<Seq<bool>> {
    Seq::new(
        32,
        |py: int| Seq::new(64, |px: int| s.screen[py][px] != sprite_hit(s.memory, s.i, vx, vy, n, py, px)),
    )
}

/// Whether the sprite turns at least one lit pixel off.
pub open spec fn collides(s: MachineState, vx: u8, vy: u8, n: u8) -> bool {
    exists|py: int, px: int|
        0 <= py < 32 && 0 <= px < 64 && #[trigger] s.screen[py][px] && sprite_hit(
            s.memory,
            s.i,
            vx,
            vy,
            n,
            py,
            px,
        )
}

/// The three decimal digits of `b`, most significant first.
pub open spec fn bcd(b: u8) -> Seq<u8> {
    seq![b / 100, (b / 10) % 10, b % 10]
}

/// `memory` with `bytes` written from address `at`.
pub open spec fn write_bytes(memory: Seq<u8>, at: int, bytes: Seq<u8>) -> Seq<u8> {
    Seq::new(
        memory.len(),
        |a: int|
            if at <= a < at + bytes.len() {
                bytes[a - at]
            } else {
                memory[a]
            },
    )
}

/// What executing `ins` does to `s`: the next state, or the kind of fault.
/// `random` is the byte drawn for a random instruction, `None` when the
/// random source failed. On a fault the state is left as it was.
pub open spec fn execute_spec(s: MachineState, ins: Instruction, random: Option<u8>) -> Result<
    MachineState,
    FaultKind,
> {
    match ins {
        Instruction::ClearScreen => Ok(advance(MachineState { screen: blank_screen(), ..s })),
        Instruction::Return => if s.sp == 0 {
            Err(FaultKind::StackUnderflow)
        } else if s.sp > STACK_DEPTH {
            Err(FaultKind::StackOverflow)
        } else {
            Ok(MachineState { sp: (s.sp - 1) as usize, pc: s.stack[s.sp - 1], ..s })
        },
        Instruction::Jump { addr } => Ok(MachineState { pc: addr, ..s }),
        Instruction::Call { addr } => if s.sp >= STACK_DEPTH {
            Err(FaultKind::StackOverflow)
        } else {
            Ok(
                MachineState {
                    stack: s.stack.update(s.sp as int, (s.pc + PC_STEP) as u16),
                    sp: (s.sp + 1) as usize,
                    pc: addr,
                    ..s
                },
            )
        },
        Instruction::SkipIfEqualImmediate { x, kk } => Ok(skip_if(s, s.v[x as int] == kk)),
        Instruction::SkipIfNotEqualImmediate { x, kk } => Ok(skip_if(s, s.v[x as int] != kk)),
        Instruction::SkipIfEqualRegister { x, y } => Ok(skip_if(s, s.v[x as int] == s.v[y as int])),
        Instruction::LoadImmediate { x, kk } => Ok(with_registers(s, s.v.update(x as int, kk))),
        Instruction::AddImmediate { x, kk } => Ok(
            with_registers(s, s.v.update(x as int, ((s.v[x as int] + kk) % 256) as u8)),
        ),
        Instruction::Move { x, y } => Ok(with_registers(s, s.v.update(x as int, s.v[y as int]))),
        Instruction::Or { x, y } => Ok(
            with_registers(s, s.v.update(x as int, s.v[x as int] | s.v[y as int])),
        ),
        Instruction::And { x, y } => Ok(
            with_registers(s, s.v.update(x as int, s.v[x as int] & s.v[y as int])),
        ),
        Instruction::Xor { x, y } => Ok(
            with_registers(s, s.v.update(x as int, s.v[x as int] ^ s.v[y as int])),
        ),
        Instruction::AddRegister { x, y } => {
            let sum = s.v[x as int] + s.v[y as int];
            Ok(
                with_registers(
                    s,
                    s.v.update(x as int, (sum % 256) as u8).update(15, flag(sum > 255)),
                ),
            )
        },
        Instruction::Subtract { x, y } => {
            let (a, b) = (s.v[x as int], s.v[y as int]);
            Ok(
                with_registers(
                    s,
                    s.v.update(15, flag(a > b)).update(
                        x as int,
                        if a >= b {
                            (a - b) as u8
                        } else {
                            0u8
                        },
                    ),
                ),
            )
        },
        Instruction::ShiftRight { x } => {
            let a = s.v[x as int];
            Ok(with_registers(s, s.v.update(15, a % 2).update(x as int, a / 2)))
        },
        Instruction::SubtractReversed { x, y } => {
            let (a, b) = (s.v[x as int], s.v[y as int]);
            Ok(
                with_registers(
                    s,
                    s.v.update(15, flag(b > a)).update(
                        x as int,
                        if b >= a {
                            (b - a) as u8
                        } else {
                            0u8
                        },
                    ),
                ),
            )
        },
        Instruction::ShiftLeft { x } => {
            let a = s.v[x as int];
            Ok(with_registers(s, s.v.update(15, a / 128).update(x as int, ((a * 2) % 256) as u8)))
        },
        Instruction::SkipIfNotEqualRegister { x, y } => Ok(
            skip_if(s, s.v[x as int] != s.v[y as int]),
        ),
        Instruction::LoadIndex { addr } => Ok(advance(MachineState { i: addr, ..s })),
        Instruction::JumpOffset { addr } => Ok(MachineState { pc: (addr + s.v[0]) as u16, ..s }),
        Instruction::Random { x, kk } => match random {
            Some(b) => Ok(with_registers(s, s.v.update(x as int, b & kk))),
            None => Err(FaultKind::RandomSourceUnavailable),
        },
        Instruction::Draw { x, y, n } => if n > 0 && s.i + n > MEMORY_SIZE {
            Err(FaultKind::MemoryOutOfBounds)
        } else {
            let (vx, vy) = (s.v[x as int], s.v[y as int]);
            Ok(
                advance(
                    MachineState {
                        screen: drawn_screen(s, vx, vy, n),
                        v: s.v.update(15, flag(collides(s, vx, vy, n))),
                        ..s
                    },
                ),
            )
        },
        Instruction::SkipIfKeyPressed { x } => if s.v[x as int] >= 16 {
            Err(FaultKind::KeyOutOfRange)
        } else {
            Ok(skip_if(s, s.keys[s.v[x as int] as int]))
        },
        Instruction::SkipIfKeyNotPressed { x } => if s.v[x as int] >= 16 {
            Err(FaultKind::KeyOutOfRange)
        } else {
            Ok(skip_if(s, !s.keys[s.v[x as int] as int]))
        },
        Instruction::ReadDelayTimer { x } => Ok(
            with_registers(s, s.v.update(x as int, s.delay_timer)),
        ),
        Instruction::WaitForKey { x } => Ok(advance(MachineState { await_key: Some(x), ..s })),
        Instruction::SetDelayTimer { x } => Ok(
            advance(MachineState { delay_timer: s.v[x as int], ..s }),
        ),
        Instruction::SetSoundTimer { x } => Ok(
            advance(MachineState { sound_timer: s.v[x as int], ..s }),
        ),
        Instruction::AddToIndex { x } => if s.i + s.v[x as int] > u16::MAX {
            Err(FaultKind::IndexOverflow)
        } else {
            Ok(advance(MachineState { i: (s.i + s.v[x as int]) as u16, ..s }))
        },
        Instruction::FontCharacter { x } => Ok(
            advance(MachineState { i: (s.v[x as int] * 5) as u16, ..s }),
        ),
        Instruction::StoreBcd { x } => if s.i + 3 > MEMORY_SIZE {
            Err(FaultKind::MemoryOutOfBounds)
        } else {
            Ok(advance(MachineState { memory: write_bytes(s.memory, s.i as int, bcd(s.v[x as int])), ..s }))
        },
        Instruction::StoreRegisters { x } => if s.i + x + 1 > MEMORY_SIZE {
            Err(FaultKind::MemoryOutOfBounds)
        } else {
            Ok(
                advance(
                    MachineState {
                        memory: write_bytes(s.memory, s.i as int, s.v.subrange(0, x + 1)),
                        ..s
                    },
                ),
            )
        },
        Instruction::LoadRegisters { x } => if s.i + x + 1 > MEMORY_SIZE {
            Err(FaultKind::MemoryOutOfBounds)
        } else {
            Ok(
                with_registers(
                    s,
                    write_bytes(s.v, 0, s.memory.subrange(s.i as int, s.i + x + 1)),
                ),
            )
        },
    }
}

impl MachineState {
    /// The sizes of memory, framebuffer, registers, stack and keys.
    pub open spec fn valid(self) -> bool {
        &&& self.memory.len() == MEMORY_SIZE
        &&& self.screen.len() == DISPLAY_HEIGHT
        &&& forall|y: int| 0 <= y < DISPLAY_HEIGHT ==> (#[trigger] self.screen[y]).len() == DISPLAY_WIDTH
        &&& self.v.len() == 16
        &&& self.stack.len() == STACK_DEPTH
        &&& self.keys.len() == 16
    }

    /// The register a pending key wait writes to is a valid register.
    pub open spec fn wf(self) -> bool {
        self.await_key matches Some(r) ==> r < 16
    }
}

/// The big-endian instruction word at `pc`.
pub open spec fn opcode_at(memory: Seq<u8>, pc: u16) -> u16 {
    (memory[pc as int] * 256 + memory[pc + 1]) as u16
}

/// `s` after a pending key wait is served: the lowest pressed key is written
/// to the waiting register and the wait ends. Unchanged when no wait is
/// pending or no key is pressed.
pub open spec fn resume(s: MachineState) -> MachineState {
    match (s.await_key, first_pressed(s.keys)) {
        (Some(r), Some(k)) => MachineState { v: s.v.update(r as int, k), await_key: None, ..s },
        _ => s,
    }
}

/// Whether a step of `s` stalls on a key wait with no key pressed.
pub open spec fn stalled(s: MachineState) -> bool {
    s.await_key is Some && first_pressed(s.keys) is None
}

/// One step of the interpreter: the state after it and its outcome. A step
/// that stalls changes nothing. Otherwise a pending wait is served, and the
/// instruction at the program counter is fetched, decoded and executed; on a
/// fault the state is that of the served wait. A word outside the
/// instruction table is a fault rather than a silent stall.
pub open spec fn step_spec(s: MachineState, random: Option<u8>) -> (MachineState, Result<(), Fault>) {
    if stalled(s) {
        (s, Ok(()))
    } else {
        let t = resume(s);
        if t.pc + 1 >= MEMORY_SIZE {
            (t, Err(Fault { kind: FaultKind::ProgramCounterOutOfMemory, program_counter: t.pc, opcode: 0 }))
        } else {
            let op = opcode_at(t.memory, t.pc);
            match decode_spec(op) {
                None => (t, Err(Fault { kind: FaultKind::UnknownOpcode, program_counter: t.pc, opcode: op })),
                Some(ins) => match execute_spec(t, ins, random) {
                    Ok(u) => (u, Ok(())),
                    Err(k) => (t, Err(Fault { kind: k, program_counter: t.pc, opcode: op })),
                },
            }
        }
    }
}

/// Whether the step of `s` executes a random instruction.
pub open spec fn uses_random(s: MachineState) -> bool {
    let t = resume(s);
    !stalled(s) && t.pc + 1 < MEMORY_SIZE && decode_spec(opcode_at(t.memory, t.pc)) matches Some(
        Instruction::Random { .. },
    )
}

/// The delay timer's tick at the start of a frame.
pub open spec fn tick(s: MachineState) -> MachineState {
    if s.delay_timer > 0 {
        MachineState { delay_timer: (s.delay_timer - 1) as u8, ..s }
    } else {
        s
    }
}

/// `randoms.len()` steps from `s`, the `k`-th using `randoms[k]`, stopping at
/// the first fault.
pub open spec fn run_spec(s: MachineState, randoms: Seq<Option<u8>>) -> (MachineState, Result<(), Fault>)
    decreases randoms.len(),
{
    if randoms.len() == 0 {
        (s, Ok(()))
    } else {
        let (t, r) = run_spec(s, randoms.drop_last());
        match r {
            Ok(()) => step_spec(t, randoms.last()),
            Err(f) => (t, Err(f)),
        }
    }
}

} // verus!
