//! The instruction table: decoded instructions and the decoder.
use vstd::prelude::*;

use crate::nibbles::{
    concat_nibbles_2, concat_nibbles_3, get_nibble_1, get_nibble_2, get_nibble_3, get_nibble_4,
};

verus! {

/// One decoded instruction. Register indices `x`, `y` and the sprite height
/// `n` are 4-bit fields; `kk` is an 8-bit immediate and `addr` a 12-bit one.
#[derive(PartialEq, Eq, Structural, Clone, Copy, Debug)]
pub enum Instruction {
    ClearScreen,
    Return,
    Jump { addr: u16 },
    Call { addr: u16 },
    SkipIfEqualImmediate { x: u8, kk: u8 },
    SkipIfNotEqualImmediate { x: u8, kk: u8 },
    SkipIfEqualRegister { x: u8, y: u8 },
    LoadImmediate { x: u8, kk: u8 },
    AddImmediate { x: u8, kk: u8 },
    Move { x: u8, y: u8 },
    Or { x: u8, y: u8 },
    And { x: u8, y: u8 },
    Xor { x: u8, y: u8 },
    AddRegister { x: u8, y: u8 },
    Subtract { x: u8, y: u8 },
    ShiftRight { x: u8 },
    SubtractReversed { x: u8, y: u8 },
    ShiftLeft { x: u8 },
    SkipIfNotEqualRegister { x: u8, y: u8 },
    LoadIndex { addr: u16 },
    JumpOffset { addr: u16 },
    Random { x: u8, kk: u8 },
    Draw { x: u8, y: u8, n: u8 },
    SkipIfKeyPressed { x: u8 },
    SkipIfKeyNotPressed { x: u8 },
    ReadDelayTimer { x: u8 },
    WaitForKey { x: u8 },
    SetDelayTimer { x: u8 },
    SetSoundTimer { x: u8 },
    AddToIndex { x: u8 },
    FontCharacter { x: u8 },
    StoreBcd { x: u8 },
    StoreRegisters { x: u8 },
    LoadRegisters { x: u8 },
}

/// The four 4-bit fields of `op`, most significant first.
pub open spec fn fields(op: u16) -> (u8, u8, u8, u8) {
    ((op / 4096) as u8, ((op / 256) % 16) as u8, ((op / 16) % 16) as u8, (op % 16) as u8)
}

/// The instruction that the word `op` encodes, if any.
pub open spec fn decode_spec(op: u16) -> Option<Instruction> {
    let (a, b, c, d) = fields(op);
    let x = b;
    let y = c;
    let kk = (op % 256) as u8;
    let addr = (op % 4096) as u16;
    if a == 0 && b == 0 && c == 0xE && d == 0 {
        Some(Instruction::ClearScreen)
    } else if a == 0 && b == 0 && c == 0xE && d == 0xE {
        Some(Instruction::Return)
    } else if a == 1 {
        Some(Instruction::Jump { addr })
    } else if a == 2 {
        Some(Instruction::Call { addr })
    } else if a == 3 {
        Some(Instruction::SkipIfEqualImmediate { x, kk })
    } else if a == 4 {
        Some(Instruction::SkipIfNotEqualImmediate { x, kk })
    } else if a == 5 && d == 0 {
        Some(Instruction::SkipIfEqualRegister { x, y })
    } else if a == 6 {
        Some(Instruction::LoadImmediate { x, kk })
    } else if a == 7 {
        Some(Instruction::AddImmediate { x, kk })
    } else if a == 8 && d == 0 {
        Some(Instruction::Move { x, y })
    } else if a == 8 && d == 1 {
        Some(Instruction::Or { x, y })
    } else if a == 8 && d == 2 {
        Some(Instruction::And { x, y })
    } else if a == 8 && d == 3 {
        Some(Instruction::Xor { x, y })
    } else if a == 8 && d == 4 {
        Some(Instruction::AddRegister { x, y })
    } else if a == 8 && d == 5 {
        Some(Instruction::Subtract { x, y })
    } else if a == 8 && d == 6 {
        Some(Instruction::ShiftRight { x })
    } else if a == 8 && d == 7 {
        Some(Instruction::SubtractReversed { x, y })
    } else if a == 8 && d == 0xE {
        Some(Instruction::ShiftLeft { x })
    } else if a == 9 && d == 0 {
        Some(Instruction::SkipIfNotEqualRegister { x, y })
    } else if a == 0xA {
        Some(Instruction::LoadIndex { addr })
    } else if a == 0xB {
        Some(Instruction::JumpOffset { addr })
    } else if a == 0xC {
        Some(Instruction::Random { x, kk })
    } else if a == 0xD {
        Some(Instruction::Draw { x, y, n: d })
    } else if a == 0xE && c == 9 && d == 0xE {
        Some(Instruction::SkipIfKeyPressed { x })
    } else if a == 0xE && c == 0xA && d == 1 {
        Some(Instruction::SkipIfKeyNotPressed { x })
    } else if a == 0xF && c == 0 && d == 7 {
        Some(Instruction::ReadDelayTimer { x })
    } else if a == 0xF && c == 0 && d == 0xA {
        Some(Instruction::WaitForKey { x })
    } else if a == 0xF && c == 1 && d == 5 {
        Some(Instruction::SetDelayTimer { x })
    } else if a == 0xF && c == 1 && d == 8 {
        Some(Instruction::SetSoundTimer { x })
    } else if a == 0xF && c == 1 && d == 0xE {
        Some(Instruction::AddToIndex { x })
    } else if a == 0xF && c == 2 && d == 9 {
        Some(Instruction::FontCharacter { x })
    } else if a == 0xF && c == 3 && d == 3 {
        Some(Instruction::StoreBcd { x })
    } else if a == 0xF && c == 5 && d == 5 {
        Some(Instruction::StoreRegisters { x })
    } else if a == 0xF && c == 6 && d == 5 {
        Some(Instruction::LoadRegisters { x })
    } else {
        None
    }
}

impl Instruction {
    /// Every field lies in the range its encoding allows.
    pub open spec fn wf(self) -> bool {
        match self {
            Instruction::Jump { addr } | Instruction::Call { addr } | Instruction::LoadIndex { addr }
            | Instruction::JumpOffset { addr } => addr < 4096,
            Instruction::SkipIfEqualImmediate { x, kk } | Instruction::SkipIfNotEqualImmediate {
                x,
                kk,
            } | Instruction::LoadImmediate { x, kk } | Instruction::AddImmediate { x, kk }
            | Instruction::Random { x, kk } => x < 16,
            Instruction::SkipIfEqualRegister { x, y } | Instruction::Move { x, y } | Instruction::Or {
                x,
                y,
            } | Instruction::And { x, y } | Instruction::Xor { x, y } | Instruction::AddRegister {
                x,
                y,
            } | Instruction::Subtract { x, y } | Instruction::SubtractReversed { x, y }
            | Instruction::SkipIfNotEqualRegister { x, y } => x < 16 && y < 16,
            Instruction::Draw { x, y, n } => x < 16 && y < 16 && n < 16,
            Instruction::ShiftRight { x } | Instruction::ShiftLeft { x }
            | Instruction::SkipIfKeyPressed { x } | Instruction::SkipIfKeyNotPressed { x }
            | Instruction::ReadDelayTimer { x } | Instruction::WaitForKey { x }
            | Instruction::SetDelayTimer { x } | Instruction::SetSoundTimer { x }
            | Instruction::AddToIndex { x } | Instruction::FontCharacter { x }
            | Instruction::StoreBcd { x } | Instruction::StoreRegisters { x }
            | Instruction::LoadRegisters { x } => x < 16,
            Instruction::ClearScreen | Instruction::Return => true,
        }
    }

    /// Decodes an instruction word; `None` for a word outside the table.
    pub fn decode(opcode: u16) -> (r: Option<Instruction>)
        ensures
            r == decode_spec(opcode),
            r matches Some(ins) ==> ins.wf(),
    {
        let a = get_nibble_1(opcode);
        let x = get_nibble_2(opcode);
        let y = get_nibble_3(opcode);
        let d = get_nibble_4(opcode);
        let kk = concat_nibbles_2(y, d);
        let addr = concat_nibbles_3(x, y, d);
        assert(opcode % 4096 == ((opcode / 256) % 16) * 256 + ((opcode / 16) % 16) * 16 + opcode % 16)
            by (bit_vector);
        assert(opcode % 256 == ((opcode / 16) % 16) * 16 + opcode % 16) by (bit_vector);
        match (a, x, y, d) {
            (0x0, 0x0, 0xE, 0x0) => Some(Instruction::ClearScreen),
            (0x0, 0x0, 0xE, 0xE) => Some(Instruction::Return),
            (0x1, _, _, _) => Some(Instruction::Jump { addr }),
            (0x2, _, _, _) => Some(Instruction::Call { addr }),
            (0x3, _, _, _) => Some(Instruction::SkipIfEqualImmediate { x, kk }),
            (0x4, _, _, _) => Some(Instruction::SkipIfNotEqualImmediate { x, kk }),
            (0x5, _, _, 0x0) => Some(Instruction::SkipIfEqualRegister { x, y }),
            (0x6, _, _, _) => Some(Instruction::LoadImmediate { x, kk }),
            (0x7, _, _, _) => Some(Instruction::AddImmediate { x, kk }),
            (0x8, _, _, 0x0) => Some(Instruction::Move { x, y }),
            (0x8, _, _, 0x1) => Some(Instruction::Or { x, y }),
            (0x8, _, _, 0x2) => Some(Instruction::And { x, y }),
            (0x8, _, _, 0x3) => Some(Instruction::Xor { x, y }),
            (0x8, _, _, 0x4) => Some(Instruction::AddRegister { x, y }),
            (0x8, _, _, 0x5) => Some(Instruction::Subtract { x, y }),
            (0x8, _, _, 0x6) => Some(Instruction::ShiftRight { x }),
            (0x8, _, _, 0x7) => Some(Instruction::SubtractReversed { x, y }),
            (0x8, _, _, 0xE) => Some(Instruction::ShiftLeft { x }),
            (0x9, _, _, 0x0) => Some(Instruction::SkipIfNotEqualRegister { x, y }),
            (0xA, _, _, _) => Some(Instruction::LoadIndex { addr }),
            (0xB, _, _, _) => Some(Instruction::JumpOffset { addr }),
            (0xC, _, _, _) => Some(Instruction::Random { x, kk }),
            (0xD, _, _, _) => Some(Instruction::Draw { x, y, n: d }),
            (0xE, _, 0x9, 0xE) => Some(Instruction::SkipIfKeyPressed { x }),
            (0xE, _, 0xA, 0x1) => Some(Instruction::SkipIfKeyNotPressed { x }),
            (0xF, _, 0x0, 0x7) => Some(Instruction::ReadDelayTimer { x }),
            (0xF, _, 0x0, 0xA) => Some(Instruction::WaitForKey { x }),
            (0xF, _, 0x1, 0x5) => Some(Instruction::SetDelayTimer { x }),
            (0xF, _, 0x1, 0x8) => Some(Instruction::SetSoundTimer { x }),
            (0xF, _, 0x1, 0xE) => Some(Instruction::AddToIndex { x }),
            (0xF, _, 0x2, 0x9) => Some(Instruction::FontCharacter { x }),
            (0xF, _, 0x3, 0x3) => Some(Instruction::StoreBcd { x }),
            (0xF, _, 0x5, 0x5) => Some(Instruction::StoreRegisters { x }),
            (0xF, _, 0x6, 0x5) => Some(Instruction::LoadRegisters { x }),
            _ => None,
        }
    }
}

} // verus!
