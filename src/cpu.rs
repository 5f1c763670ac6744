//! The machine state and the fetch/decode/execute interpreter.
use vstd::prelude::*;

use crate::instruction::Instruction;
use crate::keypad::Keypad;
use crate::semantics::{
    advance, bcd, blank_screen, collides, drawn_screen, execute_spec, font, initial_memory,
    initial_state, loaded_memory, opcode_at, resume, run_spec, skip_if, sprite_bit, sprite_hit,
    step_spec, tick, uses_random, write_bytes, Fault, FaultKind, MachineState,
};

verus! {

/// Width of the framebuffer in pixels.
pub const DISPLAY_WIDTH: usize = 64;

/// Height of the framebuffer in pixels.
pub const DISPLAY_HEIGHT: usize = 32;

/// How far the program counter moves past one instruction word.
pub const PC_STEP: u16 = 2;

/// Size of the addressable memory in bytes.
pub const MEMORY_SIZE: usize = 4096;

/// Number of return addresses the call stack holds.
pub const STACK_DEPTH: usize = 16;

/// Address at which program bytes are loaded and execution starts.
pub const PROGRAM_START: usize = 0x200;

/// Number of instructions executed per frame.
pub const STEPS_PER_FRAME: usize = 8;

/// The general-purpose registers, the index register and the two timers.
pub struct Registers {
    pub v: [u8; 16],
    pub i: u16,
    pub sound_timer: u8,
    pub delay_timer: u8,
}

/// The whole machine: memory, framebuffer, registers, call stack, program
/// counter, key-wait sub-state and input matrix.
pub struct Cpu {
    pub memory: [u8; 4096],
    /// Row-major framebuffer: `video_memory[y][x]`, `true` when lit.
    pub video_memory: [[bool; 64]; 32],
    pub registers: Registers,
    pub program_counter: u16,
    pub stack: [u16; 16],
    /// Index of the next free slot of `stack`.
    pub stack_pointer: usize,
    /// The register waiting for a key press, while a wait-for-key
    /// instruction blocks execution.
    pub await_key: Option<u8>,
    pub keypad: Keypad,
}

impl View for Cpu {
    type V = MachineState;

    open spec fn view(&self) -> MachineState {
        MachineState {
            memory: self.memory@,
            screen: screen_of(self.video_memory),
            v: self.registers.v@,
            i: self.registers.i,
            delay_timer: self.registers.delay_timer,
            sound_timer: self.registers.sound_timer,
            pc: self.program_counter,
            stack: self.stack@,
            sp: self.stack_pointer,
            await_key: self.await_key,
            keys: self.keypad@,
        }
    }
}

/// The framebuffer as rows of pixels.
pub open spec fn screen_of(video: [[bool; 64]; 32]) -> Seq<Seq<bool>> {
    Seq::new(32, |y: int| video@[y]@)
}

/// `r` agrees with `expected`: on success the machine is in the expected
/// state, on a fault it is as it was before.
pub open spec fn outcome(
    pre: MachineState,
    post: MachineState,
    r: Result<(), FaultKind>,
    expected: Result<MachineState, FaultKind>,
) -> bool {
    match r {
        Ok(()) => expected == Ok::<MachineState, FaultKind>(post),
        Err(k) => expected == Err::<MachineState, FaultKind>(k) && post == pre,
    }
}

impl Cpu {
    /// Moves the program counter past two instructions when `cond` holds,
    /// past one otherwise.
    fn skip_if(&mut self, cond: bool)
        requires
            old(self).program_counter + 2 * PC_STEP <= u16::MAX,
        ensures
            final(self)@ == skip_if(old(self)@, cond),
    {
        if cond {
            self.program_counter = self.program_counter + 2 * PC_STEP;
        } else {
            self.program_counter = self.program_counter + PC_STEP;
        }
    }

    /// Moves the program counter past one instruction.
    fn advance(&mut self)
        requires
            old(self).program_counter + PC_STEP <= u16::MAX,
        ensures
            final(self)@ == advance(old(self)@),
    {
        self.program_counter = self.program_counter + PC_STEP;
    }

    /// Copies `v[0..=x]` into memory from the index register on.
    fn store_registers(&mut self, x: u8)
        requires
            x < 16,
            old(self).registers.i + x + 1 <= MEMORY_SIZE,
        ensures
            final(self)@ == (MachineState {
                memory: write_bytes(old(self)@.memory, old(self)@.i as int, old(self)@.v.subrange(0, x + 1)),
                ..old(self)@
            }),
    {
        let base = self.registers.i as usize;
        let mut k: usize = 0;
        assert(write_bytes(old(self)@.memory, base as int, old(self)@.v.subrange(0, 0)) =~= old(self)@.memory);
        while k <= x as usize
            invariant
                k <= x + 1,
                x < 16,
                base == old(self).registers.i,
                base + x + 1 <= MEMORY_SIZE,
                self@ == (MachineState {
                    memory: write_bytes(old(self)@.memory, base as int, old(self)@.v.subrange(0, k as int)),
                    ..old(self)@
                }),
            decreases x + 1 - k,
        {
            self.memory[base + k] = self.registers.v[k];
            assert(self.memory@ =~= write_bytes(
                old(self)@.memory,
                base as int,
                old(self)@.v.subrange(0, k + 1),
            ));
            k = k + 1;
        }
    }

    /// Copies memory from the index register on into `v[0..=x]`.
    fn load_registers(&mut self, x: u8)
        requires
            x < 16,
            old(self).registers.i + x + 1 <= MEMORY_SIZE,
        ensures
            final(self)@ == (MachineState {
                v: write_bytes(
                    old(self)@.v,
                    0,
                    old(self)@.memory.subrange(old(self)@.i as int, old(self)@.i + x + 1),
                ),
                ..old(self)@
            }),
    {
        let base = self.registers.i as usize;
        let mut k: usize = 0;
        assert(write_bytes(old(self)@.v, 0, old(self)@.memory.subrange(base as int, base as int)) =~= old(self)@.v);
        while k <= x as usize
            invariant
                k <= x + 1,
                x < 16,
                base == old(self).registers.i,
                base + x + 1 <= MEMORY_SIZE,
                self@ == (MachineState {
                    v: write_bytes(
                        old(self)@.v,
                        0,
                        old(self)@.memory.subrange(base as int, base + k),
                    ),
                    ..old(self)@
                }),
            decreases x + 1 - k,
        {
            self.registers.v[k] = self.memory[base + k];
            assert(self.registers.v@ =~= write_bytes(
                old(self)@.v,
                0,
                old(self)@.memory.subrange(base as int, base + k + 1),
            ));
            k = k + 1;
        }
        assert(self.registers.v@ =~= write_bytes(
            old(self)@.v,
            0,
            old(self)@.memory.subrange(base as int, base + x + 1),
        ));
    }

    /// Writes the decimal digits of `value` to memory from the index register on.
    fn store_bcd(&mut self, value: u8)
        requires
            old(self).registers.i + 3 <= MEMORY_SIZE,
        ensures
            final(self)@ == (MachineState {
                memory: write_bytes(old(self)@.memory, old(self)@.i as int, bcd(value)),
                ..old(self)@
            }),
    {
        let base = self.registers.i as usize;
        self.memory[base] = value / 100;
        self.memory[base + 1] = (value / 10) % 10;
        self.memory[base + 2] = value % 10;
        assert(self.memory@ =~= write_bytes(old(self)@.memory, base as int, bcd(value)));
    }

    /// Executes one decoded instruction. `random` is the byte a random
    /// instruction uses, `None` when the random source failed.
    pub fn run_instruction(&mut self, ins: Instruction, random: Option<u8>) -> (r: Result<(), FaultKind>)
        requires
            ins.wf(),
            old(self).program_counter + PC_STEP <= MEMORY_SIZE,
        ensures
            outcome(old(self)@, final(self)@, r, execute_spec(old(self)@, ins, random)),
    {
        match ins {
            Instruction::ClearScreen => {
                self.video_memory = [[false; 64]; 32];
                assert(screen_of(self.video_memory) =~~= blank_screen());
                self.advance();
            },
            Instruction::Return => {
                if self.stack_pointer == 0 {
                    return Err(FaultKind::StackUnderflow);
                }
                if self.stack_pointer > STACK_DEPTH {
                    return Err(FaultKind::StackOverflow);
                }
                self.stack_pointer = self.stack_pointer - 1;
                self.program_counter = self.stack[self.stack_pointer];
            },
            Instruction::Jump { addr } => {
                self.program_counter = addr;
            },
            Instruction::Call { addr } => {
                if self.stack_pointer >= STACK_DEPTH {
                    return Err(FaultKind::StackOverflow);
                }
                self.stack[self.stack_pointer] = self.program_counter + PC_STEP;
                self.stack_pointer = self.stack_pointer + 1;
                self.program_counter = addr;
            },
            Instruction::SkipIfEqualImmediate { x, kk } => {
                let c = self.registers.v[x as usize] == kk;
                self.skip_if(c);
            },
            Instruction::SkipIfNotEqualImmediate { x, kk } => {
                let c = self.registers.v[x as usize] != kk;
                self.skip_if(c);
            },
            Instruction::SkipIfEqualRegister { x, y } => {
                let c = self.registers.v[x as usize] == self.registers.v[y as usize];
                self.skip_if(c);
            },
            Instruction::LoadImmediate { x, kk } => {
                self.registers.v[x as usize] = kk;
                self.advance();
            },
            Instruction::AddImmediate { x, kk } => {
                let sum = self.registers.v[x as usize] as u16 + kk as u16;
                self.registers.v[x as usize] = (sum % 256) as u8;
                self.advance();
            },
            Instruction::Move { x, y } => {
                self.registers.v[x as usize] = self.registers.v[y as usize];
                self.advance();
            },
            Instruction::Or { x, y } => {
                self.registers.v[x as usize] = self.registers.v[x as usize] | self.registers.v[y as usize];
                self.advance();
            },
            Instruction::And { x, y } => {
                self.registers.v[x as usize] = self.registers.v[x as usize] & self.registers.v[y as usize];
                self.advance();
            },
            Instruction::Xor { x, y } => {
                self.registers.v[x as usize] = self.registers.v[x as usize] ^ self.registers.v[y as usize];
                self.advance();
            },
            Instruction::AddRegister { x, y } => {
                let sum = self.registers.v[x as usize] as u16 + self.registers.v[y as usize] as u16;
                self.registers.v[x as usize] = (sum % 256) as u8;
                self.registers.v[15] = if sum > 255 { 1 } else { 0 };
                self.advance();
            },
            Instruction::Subtract { x, y } => {
                let a = self.registers.v[x as usize];
                let b = self.registers.v[y as usize];
                self.registers.v[15] = if a > b { 1 } else { 0 };
                self.registers.v[x as usize] = match a.checked_sub(b) {
                    Some(d) => d,
                    None => 0,
                };
                self.advance();
            },
            Instruction::ShiftRight { x } => {
                let a = self.registers.v[x as usize];
                self.registers.v[15] = a & 1;
                self.registers.v[x as usize] = a >> 1;
                assert(a & 1 == a % 2 && a >> 1 == a / 2) by (bit_vector);
                self.advance();
            },
            Instruction::SubtractReversed { x, y } => {
                let a = self.registers.v[x as usize];
                let b = self.registers.v[y as usize];
                self.registers.v[15] = if b > a { 1 } else { 0 };
                self.registers.v[x as usize] = match b.checked_sub(a) {
                    Some(d) => d,
                    None => 0,
                };
                self.advance();
            },
            Instruction::ShiftLeft { x } => {
                let a = self.registers.v[x as usize];
                self.registers.v[15] = a >> 7;
                self.registers.v[x as usize] = a << 1;
                assert(a >> 7 == a / 128 && a << 1 == ((a as u16 * 2) % 256) as u8) by (bit_vector);
                self.advance();
            },
            Instruction::SkipIfNotEqualRegister { x, y } => {
                let c = self.registers.v[x as usize] != self.registers.v[y as usize];
                self.skip_if(c);
            },
            Instruction::LoadIndex { addr } => {
                self.registers.i = addr;
                self.advance();
            },
            Instruction::JumpOffset { addr } => {
                self.program_counter = addr + self.registers.v[0] as u16;
            },
            Instruction::Random { x, kk } => {
                match random {
                    Some(b) => {
                        self.registers.v[x as usize] = b & kk;
                        self.advance();
                    },
                    None => {
                        return Err(FaultKind::RandomSourceUnavailable);
                    },
                }
            },
            Instruction::Draw { x, y, n } => {
                return self.draw_sprite(x, y, n);
            },
            Instruction::SkipIfKeyPressed { x } => {
                let key = self.registers.v[x as usize];
                if key >= 16 {
                    return Err(FaultKind::KeyOutOfRange);
                }
                let c = self.keypad.key_is_pressed(key);
                self.skip_if(c);
            },
            Instruction::SkipIfKeyNotPressed { x } => {
                let key = self.registers.v[x as usize];
                if key >= 16 {
                    return Err(FaultKind::KeyOutOfRange);
                }
                let c = !self.keypad.key_is_pressed(key);
                self.skip_if(c);
            },
            Instruction::ReadDelayTimer { x } => {
                self.registers.v[x as usize] = self.registers.delay_timer;
                self.advance();
            },
            Instruction::WaitForKey { x } => {
                self.await_key = Some(x);
                self.advance();
            },
            Instruction::SetDelayTimer { x } => {
                self.registers.delay_timer = self.registers.v[x as usize];
                self.advance();
            },
            Instruction::SetSoundTimer { x } => {
                self.registers.sound_timer = self.registers.v[x as usize];
                self.advance();
            },
            Instruction::AddToIndex { x } => {
                match self.registers.i.checked_add(self.registers.v[x as usize] as u16) {
                    Some(i) => {
                        self.registers.i = i;
                        self.advance();
                    },
                    None => {
                        return Err(FaultKind::IndexOverflow);
                    },
                }
            },
            Instruction::FontCharacter { x } => {
                self.registers.i = self.registers.v[x as usize] as u16 * 5;
                self.advance();
            },
            Instruction::StoreBcd { x } => {
                if self.registers.i as usize + 3 > MEMORY_SIZE {
                    return Err(FaultKind::MemoryOutOfBounds);
                }
                let value = self.registers.v[x as usize];
                self.store_bcd(value);
                self.advance();
            },
            Instruction::StoreRegisters { x } => {
                if self.registers.i as usize + x as usize + 1 > MEMORY_SIZE {
                    return Err(FaultKind::MemoryOutOfBounds);
                }
                self.store_registers(x);
                self.advance();
            },
            Instruction::LoadRegisters { x } => {
                if self.registers.i as usize + x as usize + 1 > MEMORY_SIZE {
                    return Err(FaultKind::MemoryOutOfBounds);
                }
                self.load_registers(x);
                self.advance();
            },
        }
        Ok(())
    }

    /// XORs an `n`-row sprite read from memory at the index register onto the
    /// framebuffer at `(v[x], v[y])`, setting `v[15]` to whether a lit pixel
    /// was turned off.
    fn draw_sprite(&mut self, x: u8, y: u8, n: u8) -> (r: Result<(), FaultKind>)
        requires
            x < 16,
            y < 16,
            n < 16,
            old(self).program_counter + PC_STEP <= MEMORY_SIZE,
        ensures
            outcome(old(self)@, final(self)@, r, execute_spec(old(self)@, Instruction::Draw { x, y, n }, None)),
    {
        if n > 0 && self.registers.i as usize + n as usize > MEMORY_SIZE {
            return Err(FaultKind::MemoryOutOfBounds);
        }
        let ghost pre = self@;
        let base = self.registers.i as usize;
        let vx = self.registers.v[x as usize];
        let vy = self.registers.v[y as usize];
        let mut hit = false;
        let mut row: u8 = 0;
        while row < n
            invariant
                row <= n,
                n < 16,
                x < 16,
                y < 16,
                pre == old(self)@,
                base == pre.i,
                n > 0 ==> base + n <= MEMORY_SIZE,
                vx == pre.v[x as int],
                vy == pre.v[y as int],
                self@ == (MachineState { screen: self@.screen, ..pre }),
                forall|py: int, px: int|
                    0 <= py < 32 && 0 <= px < 64 ==> #[trigger] self@.screen[py][px] == (pre.screen[py][px]
                        != drawn_upto(pre, vx, vy, n, row as int, 0, py, px)),
                hit == collides_upto(pre, vx, vy, n, row as int, 0),
            decreases n - row,
        {
            let sprite_row = self.memory[base + row as usize];
            let py = (vy as usize + row as usize) % DISPLAY_HEIGHT;
            let mut line = self.video_memory[py];
            assert forall|qx: int| 0 <= qx < 64 implies #[trigger] line@[qx] == (pre.screen[py as int][qx]
                != drawn_upto(pre, vx, vy, n, row as int, 0, py as int, qx)) by {
                assert(self@.screen[py as int][qx] == line@[qx]);
            }
            let mut col: u8 = 0;
            while col < 8
                invariant
                    row < n,
                    n < 16,
                    col <= 8,
                    pre == old(self)@,
                    base == pre.i,
                    base + n <= MEMORY_SIZE,
                    sprite_row == pre.memory[base + row],
                    py == (vy + row) % 32,
                    self@ == (MachineState { screen: self@.screen, ..pre }),
                    forall|qy: int, qx: int|
                        0 <= qy < 32 && 0 <= qx < 64 && qy != py ==> #[trigger] self@.screen[qy][qx] == (
                        pre.screen[qy][qx] != drawn_upto(pre, vx, vy, n, row as int, 0, qy, qx)),
                    forall|qx: int|
                        0 <= qx < 64 ==> #[trigger] line@[qx] == (pre.screen[py as int][qx]
                            != drawn_upto(pre, vx, vy, n, row as int, col as int, py as int, qx)),
                    hit == collides_upto(pre, vx, vy, n, row as int, col as int),
                decreases 8 - col,
            {
                let px = (vx as usize + col as usize) % DISPLAY_WIDTH;
                let shift: u8 = 7 - col;
                let bit = (sprite_row >> shift) & 1 != 0;
                assert(bit == sprite_bit(sprite_row, col as int)) by (bit_vector)
                    requires
                        bit == ((sprite_row >> shift) & 1 != 0),
                        shift == 7 - col,
                        col < 8,
                ;
                proof {
                    lemma_draw_next(pre, vx, vy, n, row as int, col as int, py as int, px as int);
                }
                let lit = line[px];
                if bit && lit {
                    hit = true;
                }
                line[px] = lit != bit;
                col = col + 1;
            }
            let ghost before = self@;
            self.video_memory[py] = line;
            proof {
                assert forall|qy: int, qx: int| 0 <= qy < 32 && 0 <= qx < 64 implies #[trigger] self@.screen[qy][qx] == (
                    pre.screen[qy][qx] != drawn_upto(pre, vx, vy, n, row + 1, 0, qy, qx)) by {
                    lemma_wrap_32(vy as int, row as int, qy);
                    lemma_draw_row_done(pre, vx, vy, n, row as int, qy, qx);
                    if qy == py {
                        assert(self@.screen[qy][qx] == line@[qx]);
                    } else {
                        assert(self@.screen[qy][qx] == before.screen[qy][qx]);
                    }
                }
                lemma_collides_row_done(pre, vx, vy, n, row as int);
                assert(self@ =~= (MachineState { screen: self@.screen, ..pre }));
            }
            row = row + 1;
        }
        self.registers.v[15] = if hit { 1 } else { 0 };
        proof {
            lemma_draw_done(pre, vx, vy, n, self@.screen);
            lemma_collides_done(pre, vx, vy, n);
        }
        self.advance();
        Ok(())
    }
}

/// Whether the pixel at `(px, py)` is one the draw has already visited after
/// rows `0..row` and, of row `row`, columns `0..col`; and the sprite flips it.
pub open spec fn drawn_upto(s: MachineState, vx: u8, vy: u8, n: u8, row: int, col: int, py: int, px: int) -> bool {
    let r = (py - vy) % 32;
    let c = (px - vx) % 64;
    sprite_hit(s.memory, s.i, vx, vy, n, py, px) && (r < row || (r == row && c < col))
}

/// Whether a visited pixel was lit and is flipped by the sprite.
pub open spec fn collides_upto(s: MachineState, vx: u8, vy: u8, n: u8, row: int, col: int) -> bool {
    exists|py: int, px: int|
        0 <= py < 32 && 0 <= px < 64 && #[trigger] s.screen[py][px] && drawn_upto(
            s,
            vx,
            vy,
            n,
            row,
            col,
            py,
            px,
        )
}

proof fn lemma_wrap_32(base: int, off: int, q: int)
    requires
        0 <= base,
        0 <= off < 32,
        0 <= q < 32,
    ensures
        (q - base) % 32 == off <==> q == (base + off) % 32,
{
}

proof fn lemma_wrap_64(base: int, off: int, q: int)
    requires
        0 <= base,
        0 <= off < 64,
        0 <= q < 64,
    ensures
        (q - base) % 64 == off <==> q == (base + off) % 64,
{
}

/// Visiting one more column of row `row` adds exactly the pixel `(px, py)`.
proof fn lemma_draw_next(s: MachineState, vx: u8, vy: u8, n: u8, row: int, col: int, py: int, px: int)
    requires
        0 <= row < n,
        n < 16,
        0 <= col < 8,
        py == (vy + row) % 32,
        px == (vx + col) % 64,
    ensures
        forall|qy: int, qx: int|
            0 <= qy < 32 && 0 <= qx < 64 ==> #[trigger] drawn_upto(s, vx, vy, n, row, col + 1, qy, qx) == (
            drawn_upto(s, vx, vy, n, row, col, qy, qx) || (qy == py && qx == px && sprite_hit(
                s.memory,
                s.i,
                vx,
                vy,
                n,
                qy,
                qx,
            ))),
        !drawn_upto(s, vx, vy, n, row, col, py, px),
        sprite_hit(s.memory, s.i, vx, vy, n, py, px) == sprite_bit(s.memory[s.i + row], col),
        collides_upto(s, vx, vy, n, row, col + 1) == (collides_upto(s, vx, vy, n, row, col) || (
        s.screen[py][px] && sprite_hit(s.memory, s.i, vx, vy, n, py, px))),
{
    assert(0 <= py < 32 && 0 <= px < 64);
    lemma_wrap_32(vy as int, row, py);
    lemma_wrap_64(vx as int, col, px);
    assert forall|qy: int, qx: int| 0 <= qy < 32 && 0 <= qx < 64 implies #[trigger] drawn_upto(
        s,
        vx,
        vy,
        n,
        row,
        col + 1,
        qy,
        qx,
    ) == (drawn_upto(s, vx, vy, n, row, col, qy, qx) || (qy == py && qx == px && sprite_hit(
        s.memory,
        s.i,
        vx,
        vy,
        n,
        qy,
        qx,
    ))) by {
        lemma_wrap_32(vy as int, row, qy);
        lemma_wrap_64(vx as int, col, qx);
    }
    if collides_upto(s, vx, vy, n, row, col + 1) {
        let (qy, qx) = choose|qy: int, qx: int|
            0 <= qy < 32 && 0 <= qx < 64 && #[trigger] s.screen[qy][qx] && drawn_upto(
                s,
                vx,
                vy,
                n,
                row,
                col + 1,
                qy,
                qx,
            );
        if !(qy == py && qx == px) {
            assert(drawn_upto(s, vx, vy, n, row, col, qy, qx));
        }
    }
    if collides_upto(s, vx, vy, n, row, col) {
        let (qy, qx) = choose|qy: int, qx: int|
            0 <= qy < 32 && 0 <= qx < 64 && #[trigger] s.screen[qy][qx] && drawn_upto(
                s,
                vx,
                vy,
                n,
                row,
                col,
                qy,
                qx,
            );
        assert(drawn_upto(s, vx, vy, n, row, col + 1, qy, qx));
    }
    if s.screen[py][px] && sprite_hit(s.memory, s.i, vx, vy, n, py, px) {
        assert(drawn_upto(s, vx, vy, n, row, col + 1, py, px));
    }
}

/// After all eight columns of row `row`, the visited pixels are those of
/// rows `0..row + 1`.
proof fn lemma_draw_row_done(s: MachineState, vx: u8, vy: u8, n: u8, row: int, py: int, px: int)
    requires
        0 <= py < 32,
        0 <= px < 64,
    ensures
        drawn_upto(s, vx, vy, n, row, 8, py, px) == drawn_upto(s, vx, vy, n, row + 1, 0, py, px),
        (py - vy) % 32 != row ==> drawn_upto(s, vx, vy, n, row, 0, py, px) == drawn_upto(
            s,
            vx,
            vy,
            n,
            row + 1,
            0,
            py,
            px,
        ),
{
}

proof fn lemma_collides_row_done(s: MachineState, vx: u8, vy: u8, n: u8, row: int)
    ensures
        collides_upto(s, vx, vy, n, row, 8) == collides_upto(s, vx, vy, n, row + 1, 0),
{
    if collides_upto(s, vx, vy, n, row, 8) {
        let (qy, qx) = choose|qy: int, qx: int|
            0 <= qy < 32 && 0 <= qx < 64 && #[trigger] s.screen[qy][qx] && drawn_upto(s, vx, vy, n, row, 8, qy, qx);
        lemma_draw_row_done(s, vx, vy, n, row, qy, qx);
    }
    if collides_upto(s, vx, vy, n, row + 1, 0) {
        let (qy, qx) = choose|qy: int, qx: int|
            0 <= qy < 32 && 0 <= qx < 64 && #[trigger] s.screen[qy][qx] && drawn_upto(s, vx, vy, n, row + 1, 0, qy, qx);
        lemma_draw_row_done(s, vx, vy, n, row, qy, qx);
    }
}

/// Once every row is visited, the screen is the drawn screen.
proof fn lemma_draw_done(s: MachineState, vx: u8, vy: u8, n: u8, screen: Seq<Seq<bool>>)
    requires
        screen.len() == 32,
        forall|py: int| 0 <= py < 32 ==> (#[trigger] screen[py]).len() == 64,
        forall|py: int, px: int|
            0 <= py < 32 && 0 <= px < 64 ==> #[trigger] screen[py][px] == (s.screen[py][px] != drawn_upto(
                s,
                vx,
                vy,
                n,
                n as int,
                0,
                py,
                px,
            )),
    ensures
        screen == drawn_screen(s, vx, vy, n),
{
    assert forall|py: int| 0 <= py < 32 implies #[trigger] screen[py] == drawn_screen(s, vx, vy, n)[py] by {
        assert(screen[py] =~= drawn_screen(s, vx, vy, n)[py]);
    }
    assert(screen =~= drawn_screen(s, vx, vy, n));
}

proof fn lemma_collides_done(s: MachineState, vx: u8, vy: u8, n: u8)
    ensures
        collides_upto(s, vx, vy, n, n as int, 0) == collides(s, vx, vy, n),
{
    if collides(s, vx, vy, n) {
        let (qy, qx) = choose|qy: int, qx: int|
            0 <= qy < 32 && 0 <= qx < 64 && #[trigger] s.screen[qy][qx] && sprite_hit(s.memory, s.i, vx, vy, n, qy, qx);
        assert(drawn_upto(s, vx, vy, n, n as int, 0, qy, qx));
    }
}

/// Relies on rand's `OsRng::new`, which opens the operating system's random
/// source, and its `RngCore::try_fill_bytes`, which fills a buffer from it;
/// each reports a failure as an error, which becomes `None`. Nothing is
/// promised of the byte.
#[verifier::external_body]
fn os_random_byte() -> (r: Option<u8>) {
    let mut buf = [0u8; 1];
    match rand::rngs::OsRng::new() {
        Ok(mut rng) => match rand::RngCore::try_fill_bytes(&mut rng, &mut buf) {
            Ok(()) => Some(buf[0]),
            Err(_) => None,
        },
        Err(_) => None,
    }
}

/// Writes the font glyphs to the start of `memory`.
fn install_font(memory: &mut [u8; 4096])
    ensures
        final(memory)@ == Seq::new(4096, |a: int| if a < 80 { font()[a] } else { old(memory)@[a] }),
{
    let glyphs: [u8; 80] = [
        0xF0, 0x90, 0x90, 0x90, 0xF0, 0x20, 0x60, 0x20, 0x20, 0x70,
        0xF0, 0x10, 0xF0, 0x80, 0xF0, 0xF0, 0x10, 0xF0, 0x10, 0xF0,
        0x90, 0x90, 0xF0, 0x10, 0x10, 0xF0, 0x80, 0xF0, 0x10, 0xF0,
        0xF0, 0x80, 0xF0, 0x90, 0xF0, 0xF0, 0x10, 0x20, 0x40, 0x40,
        0xF0, 0x90, 0xF0, 0x90, 0xF0, 0xF0, 0x90, 0xF0, 0x10, 0xF0,
        0xF0, 0x90, 0xF0, 0x90, 0x90, 0xE0, 0x90, 0xE0, 0x90, 0xE0,
        0xF0, 0x80, 0x80, 0x80, 0xF0, 0xE0, 0x90, 0x90, 0x90, 0xE0,
        0xF0, 0x80, 0xF0, 0x80, 0xF0, 0xF0, 0x80, 0xF0, 0x80, 0x80,
    ];
    assert(glyphs@ =~= font());
    let mut a: usize = 0;
    while a < 80
        invariant
            a <= 80,
            glyphs@ == font(),
            memory@ == Seq::new(4096, |b: int| if b < a { font()[b] } else { old(memory)@[b] }),
        decreases 80 - a,
    {
        memory[a] = glyphs[a];
        assert(memory@ =~= Seq::new(4096, |b: int| if b < a + 1 { font()[b] } else { old(memory)@[b] }));
        a = a + 1;
    }
}

impl Cpu {
    /// A machine in its initial state, reading keys from `keypad`: memory
    /// zeroed but for the font at address 0, framebuffer blank, registers,
    /// timers and stack zeroed, the program counter at `PROGRAM_START`.
    pub fn new(keypad: Keypad) -> (r: Cpu)
        ensures
            r@ == initial_state(keypad@),
    {
        let mut memory = [0u8; 4096];
        install_font(&mut memory);
        let cpu = Cpu {
            memory,
            video_memory: [[false; 64]; 32],
            registers: Registers { v: [0; 16], i: 0, sound_timer: 0, delay_timer: 0 },
            program_counter: PROGRAM_START as u16,
            stack: [0; 16],
            stack_pointer: 0,
            await_key: None,
            keypad,
        };
        proof {
            lemma_initial_view(cpu);
        }
        cpu
    }

    /// Returns the machine to the state `new` gives; the keys held down stay.
    pub fn reset(&mut self)
        ensures
            final(self)@ == initial_state(old(self)@.keys),
    {
        self.memory = [0; 4096];
        install_font(&mut self.memory);
        self.video_memory = [[false; 64]; 32];
        self.registers = Registers { v: [0; 16], i: 0, sound_timer: 0, delay_timer: 0 };
        self.stack = [0; 16];
        self.stack_pointer = 0;
        self.program_counter = PROGRAM_START as u16;
        self.await_key = None;
        proof {
            lemma_initial_view(*self);
        }
    }

    /// Copies `bytes` into memory from `PROGRAM_START` on; bytes past the end
    /// of memory are dropped. Nothing else changes.
    pub fn load_program(&mut self, bytes: &[u8])
        ensures
            final(self)@ == (MachineState { memory: loaded_memory(old(self)@.memory, bytes@), ..old(self)@ }),
    {
        let mut k: usize = 0;
        let room = MEMORY_SIZE - PROGRAM_START;
        assert(loaded_memory(old(self)@.memory, bytes@.subrange(0, 0)) =~= old(self)@.memory);
        while k < bytes.len() && k < room
            invariant
                k <= bytes.len(),
                k <= room,
                room == MEMORY_SIZE - PROGRAM_START,
                self@ == (MachineState {
                    memory: loaded_memory(old(self)@.memory, bytes@.subrange(0, k as int)),
                    ..old(self)@
                }),
            decreases bytes.len() - k,
        {
            self.memory[PROGRAM_START + k] = bytes[k];
            assert(self.memory@ =~= loaded_memory(old(self)@.memory, bytes@.subrange(0, k + 1)));
            k = k + 1;
        }
        assert(self.memory@ =~= loaded_memory(old(self)@.memory, bytes@));
    }

    /// The big-endian instruction word at the program counter.
    fn get_current_opcode(&self) -> (r: u16)
        requires
            self.program_counter + 1 < MEMORY_SIZE,
        ensures
            r == opcode_at(self@.memory, self@.pc),
    {
        let part1 = self.memory[self.program_counter as usize];
        let part2 = self.memory[self.program_counter as usize + 1];
        let r = ((part1 as u16) << 8) | (part2 as u16);
        assert(((part1 as u16) << 8) | (part2 as u16) == (part1 as u16) * 256 + (part2 as u16)) by (bit_vector);
        r
    }

    /// Serves a pending key wait, if a key is pressed.
    fn serve_key_wait(&mut self)
        requires
            old(self)@.wf(),
        ensures
            final(self)@ == resume(old(self)@),
    {
        if let Some(r) = self.await_key {
            if let Some(key) = self.keypad.get_first_pressed_key() {
                self.registers.v[r as usize] = key;
                self.await_key = None;
            }
        }
    }

    /// Executes one step: while a key wait is pending and no key is pressed
    /// nothing happens; otherwise the wait, if any, is served, and the
    /// instruction at the program counter is executed. `random` is the byte a
    /// random instruction uses, `None` when the random source failed.
    pub fn execute_next_op_code_with(&mut self, random: Option<u8>) -> (r: Result<(), Fault>)
        requires
            old(self)@.wf(),
        ensures
            final(self)@.wf(),
            (final(self)@, r) == step_spec(old(self)@, random),
    {
        if let Some(_) = self.await_key {
            if self.keypad.get_first_pressed_key().is_none() {
                return Ok(());
            }
        }
        self.serve_key_wait();
        let pc = self.program_counter;
        if pc as usize + 1 >= MEMORY_SIZE {
            return Err(Fault { kind: FaultKind::ProgramCounterOutOfMemory, program_counter: pc, opcode: 0 });
        }
        let opcode = self.get_current_opcode();
        match Instruction::decode(opcode) {
            None => Err(Fault { kind: FaultKind::UnknownOpcode, program_counter: pc, opcode }),
            Some(ins) => match self.run_instruction(ins, random) {
                Ok(()) => Ok(()),
                Err(kind) => Err(Fault { kind, program_counter: pc, opcode }),
            },
        }
    }

    /// Whether the next step executes a random instruction.
    fn next_uses_random(&mut self) -> (r: bool)
        requires
            old(self)@.wf(),
        ensures
            *final(self) == *old(self),
            r == uses_random(old(self)@),
    {
        if let Some(_) = self.await_key {
            if self.keypad.get_first_pressed_key().is_none() {
                return false;
            }
        }
        if self.program_counter as usize + 1 >= MEMORY_SIZE {
            return false;
        }
        let opcode = self.get_current_opcode();
        match Instruction::decode(opcode) {
            Some(Instruction::Random { .. }) => true,
            _ => false,
        }
    }

    /// Executes one step as `execute_next_op_code_with` does, drawing the
    /// byte of a random instruction from the operating system.
    pub fn execute_next_op_code(&mut self) -> (r: Result<(), Fault>)
        requires
            old(self)@.wf(),
        ensures
            final(self)@.wf(),
            exists|random: Option<u8>| (final(self)@, r) == step_spec(old(self)@, random),
            !uses_random(old(self)@) ==> (final(self)@, r) == step_spec(old(self)@, None),
    {
        let (r, Ghost(random)) = self.step_drawing_random();
        r
    }

    /// One step, drawing a random byte when the step needs one; returns the
    /// byte handed to the step beside its outcome.
    fn step_drawing_random(&mut self) -> (r: (Result<(), Fault>, Ghost<Option<u8>>))
        requires
            old(self)@.wf(),
        ensures
            final(self)@.wf(),
            (final(self)@, r.0) == step_spec(old(self)@, r.1@),
            !uses_random(old(self)@) ==> r.1@ is None,
    {
        let random = if self.next_uses_random() {
            os_random_byte()
        } else {
            None
        };
        let r = self.execute_next_op_code_with(random);
        (r, Ghost(random))
    }

    /// One frame: the delay timer counts down by one if it is not zero, then
    /// up to `STEPS_PER_FRAME` steps run, stopping at the first fault. Returns
    /// the framebuffer.
    pub fn execute_cycle(&mut self) -> (r: Result<[[bool; 64]; 32], Fault>)
        requires
            old(self)@.wf(),
        ensures
            final(self)@.wf(),
            exists|randoms: Seq<Option<u8>>|
                randoms.len() <= STEPS_PER_FRAME && run_spec(tick(old(self)@), randoms) == (
                final(self)@,
                match r {
                    Ok(_) => Ok::<(), Fault>(()),
                    Err(f) => Err(f),
                },
                ) && (r is Ok ==> randoms.len() == STEPS_PER_FRAME),
            r matches Ok(video) ==> video == final(self).video_memory,
    {
        if self.registers.delay_timer > 0 {
            self.registers.delay_timer = self.registers.delay_timer - 1;
        }
        let ghost start = self@;
        let ghost randoms: Seq<Option<u8>> = Seq::empty();
        let mut k: usize = 0;
        while k < STEPS_PER_FRAME
            invariant
                k <= STEPS_PER_FRAME,
                randoms.len() == k,
                start == tick(old(self)@),
                self@.wf(),
                run_spec(start, randoms) == (self@, Ok::<(), Fault>(())),
            decreases STEPS_PER_FRAME - k,
        {
            let ghost done = randoms;
            let (r, Ghost(used)) = self.step_drawing_random();
            proof {
                randoms = randoms.push(used);
                assert(randoms.drop_last() =~= done);
            }
            if let Err(f) = r {
                return Err(f);
            }
            k = k + 1;
        }
        Ok(self.video_memory)
    }
}

impl Cpu {
    /// Every machine's view has the sizes of `MachineState::valid`.
    pub proof fn lemma_view_valid(&self)
        ensures
            self@.valid(),
    {
        self.keypad.lemma_len();
    }
}

/// A machine whose fields hold the initial values has the initial view.
proof fn lemma_initial_view(cpu: Cpu)
    requires
        forall|a: int| 0 <= a < 4096 ==> #[trigger] cpu.memory@[a] == if a < 80 { font()[a] } else { 0u8 },
        forall|y: int, x: int| 0 <= y < 32 && 0 <= x < 64 ==> !#[trigger] cpu.video_memory@[y]@[x],
        forall|r: int| 0 <= r < 16 ==> #[trigger] cpu.registers.v@[r] == 0,
        cpu.registers.i == 0,
        cpu.registers.sound_timer == 0,
        cpu.registers.delay_timer == 0,
        cpu.program_counter == PROGRAM_START,
        forall|r: int| 0 <= r < 16 ==> #[trigger] cpu.stack@[r] == 0,
        cpu.stack_pointer == 0,
        cpu.await_key is None,
    ensures
        cpu@ == initial_state(cpu.keypad@),
{
    assert(cpu.memory@ =~= initial_memory());
    assert forall|y: int| 0 <= y < 32 implies #[trigger] screen_of(cpu.video_memory)[y] == blank_screen()[y] by {
        assert(screen_of(cpu.video_memory)[y] =~= blank_screen()[y]);
    }
    assert(screen_of(cpu.video_memory) =~= blank_screen());
    assert(cpu.registers.v@ =~= Seq::new(16, |r: int| 0u8));
    assert(cpu.stack@ =~= Seq::new(16, |r: int| 0u16));
}

} // verus!
