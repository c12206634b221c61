//! The instruction set, decoded once from the four nibbles of an opcode.
use vstd::prelude::*;

use crate::nibbles::{combine_three_nibbles, combine_two_nibbles};

verus! {

/// One decoded instruction. `x` and `y` are register indices (below 16),
/// `address` a twelve-bit address, `value` an immediate byte and `height`
/// the number of sprite rows (below 16).
#[derive(Clone, Copy, Debug, PartialEq, Eq, Structural)]
pub enum Instruction {
    /// The legacy machine-code call family and every opcode with no meaning.
    NoOperation,
    ClearScreen,
    ReturnSubroutine,
    Jump { address: u16 },
    /// Pushes the address of the next instruction and jumps to `address`.
    CallSubroutine { address: u16 },
    SkipIfEqualValue { x: u8, value: u8 },
    SkipIfNotEqualValue { x: u8, value: u8 },
    SkipIfEqual { x: u8, y: u8 },
    SkipIfNotEqual { x: u8, y: u8 },
    AssignValue { x: u8, value: u8 },
    AddAssignValue { x: u8, value: u8 },
    Assign { x: u8, y: u8 },
    BitwiseOr { x: u8, y: u8 },
    BitwiseAnd { x: u8, y: u8 },
    BitwiseXor { x: u8, y: u8 },
    AddAssign { x: u8, y: u8 },
    SubAssign { x: u8, y: u8 },
    /// `Vx = Vy >> 1`, with the bit shifted out in the flag register.
    RightShiftAssign { x: u8, y: u8 },
    SubAssignSwapped { x: u8, y: u8 },
    /// `Vx = Vy << 1`, with the bit shifted out in the flag register.
    LeftShiftAssign { x: u8, y: u8 },
    SetAddressRegister { address: u16 },
    JumpOffset { address: u16 },
    RandomNumberAssign { x: u8, value: u8 },
    DrawSprite { x: u8, y: u8, height: u8 },
    /// Skips when the key named by `Vx` is pressed; values from 16 up name no key.
    SkipOnKeyPressed { x: u8 },
    SkipOnKeyNotPressed { x: u8 },
    StoreDelayTimer { x: u8 },
    /// Stores the lowest pressed key in `Vx`; with none pressed, stays put.
    WaitForKeyPress { x: u8 },
    SetDelayTimer { x: u8 },
    SetSoundTimer { x: u8 },
    /// `I += Vx`, wrapping at 16 bits; no flag is set.
    AddressRegisterAddAssign { x: u8 },
    SetAddressRegisterToCharacter { x: u8 },
    StoreBinaryCodedDecimal { x: u8 },
    StoreVariableRegisters { x: u8 },
    LoadVariableRegisters { x: u8 },
}

/// The instruction that the nibbles `a b c d` (most significant first) encode:
/// exact opcodes first, then those with register wildcards, then whole
/// families; anything else is no operation.
pub open spec fn decode_spec(a: u8, b: u8, c: u8, d: u8) -> Instruction {
    let address = (b * 256 + c * 16 + d) as u16;
    let value = (c * 16 + d) as u8;
    if a == 0 {
        if b == 0 && c == 0xE && d == 0 {
            Instruction::ClearScreen
        } else if b == 0 && c == 0xE && d == 0xE {
            Instruction::ReturnSubroutine
        } else {
            Instruction::NoOperation
        }
    } else if a == 1 {
        Instruction::Jump { address }
    } else if a == 2 {
        Instruction::CallSubroutine { address }
    } else if a == 3 {
        Instruction::SkipIfEqualValue { x: b, value }
    } else if a == 4 {
        Instruction::SkipIfNotEqualValue { x: b, value }
    } else if a == 5 {
        if d == 0 {
            Instruction::SkipIfEqual { x: b, y: c }
        } else {
            Instruction::NoOperation
        }
    } else if a == 6 {
        Instruction::AssignValue { x: b, value }
    } else if a == 7 {
        Instruction::AddAssignValue { x: b, value }
    } else if a == 8 {
        if d == 0 {
            Instruction::Assign { x: b, y: c }
        } else if d == 1 {
            Instruction::BitwiseOr { x: b, y: c }
        } else if d == 2 {
            Instruction::BitwiseAnd { x: b, y: c }
        } else if d == 3 {
            Instruction::BitwiseXor { x: b, y: c }
        } else if d == 4 {
            Instruction::AddAssign { x: b, y: c }
        } else if d == 5 {
            Instruction::SubAssign { x: b, y: c }
        } else if d == 6 {
            Instruction::RightShiftAssign { x: b, y: c }
        } else if d == 7 {
            Instruction::SubAssignSwapped { x: b, y: c }
        } else if d == 0xE {
            Instruction::LeftShiftAssign { x: b, y: c }
        } else {
            Instruction::NoOperation
        }
    } else if a == 9 {
        if d == 0 {
            Instruction::SkipIfNotEqual { x: b, y: c }
        } else {
            Instruction::NoOperation
        }
    } else if a == 0xA {
        Instruction::SetAddressRegister { address }
    } else if a == 0xB {
        Instruction::JumpOffset { address }
    } else if a == 0xC {
        Instruction::RandomNumberAssign { x: b, value }
    } else if a == 0xD {
        Instruction::DrawSprite { x: b, y: c, height: d }
    } else if a == 0xE {
        if c == 9 && d == 0xE {
            Instruction::SkipOnKeyPressed { x: b }
        } else if c == 0xA && d == 1 {
            Instruction::SkipOnKeyNotPressed { x: b }
        } else {
            Instruction::NoOperation
        }
    } else if a == 0xF {
        if c == 0 && d == 7 {
            Instruction::StoreDelayTimer { x: b }
        } else if c == 0 && d == 0xA {
            Instruction::WaitForKeyPress { x: b }
        } else if c == 1 && d == 5 {
            Instruction::SetDelayTimer { x: b }
        } else if c == 1 && d == 8 {
            Instruction::SetSoundTimer { x: b }
        } else if c == 1 && d == 0xE {
            Instruction::AddressRegisterAddAssign { x: b }
        } else if c == 2 && d == 9 {
            Instruction::SetAddressRegisterToCharacter { x: b }
        } else if c == 3 && d == 3 {
            Instruction::StoreBinaryCodedDecimal { x: b }
        } else if c == 5 && d == 5 {
            Instruction::StoreVariableRegisters { x: b }
        } else if c == 6 && d == 5 {
            Instruction::LoadVariableRegisters { x: b }
        } else {
            Instruction::NoOperation
        }
    } else {
        Instruction::NoOperation
    }
}

impl Instruction {
    /// Every register index, height and address that the instruction carries
    /// is in range.
    pub open spec fn well_formed(self) -> bool {
        match self {
            Instruction::Jump { address } => address < 4096,
            Instruction::CallSubroutine { address } => address < 4096,
            Instruction::SetAddressRegister { address } => address < 4096,
            Instruction::JumpOffset { address } => address < 4096,
            Instruction::SkipIfEqualValue { x, .. } => x < 16,
            Instruction::SkipIfNotEqualValue { x, .. } => x < 16,
            Instruction::AssignValue { x, .. } => x < 16,
            Instruction::AddAssignValue { x, .. } => x < 16,
            Instruction::RandomNumberAssign { x, .. } => x < 16,
            Instruction::SkipIfEqual { x, y } => x < 16 && y < 16,
            Instruction::SkipIfNotEqual { x, y } => x < 16 && y < 16,
            Instruction::Assign { x, y } => x < 16 && y < 16,
            Instruction::BitwiseOr { x, y } => x < 16 && y < 16,
            Instruction::BitwiseAnd { x, y } => x < 16 && y < 16,
            Instruction::BitwiseXor { x, y } => x < 16 && y < 16,
            Instruction::AddAssign { x, y } => x < 16 && y < 16,
            Instruction::SubAssign { x, y } => x < 16 && y < 16,
            Instruction::RightShiftAssign { x, y } => x < 16 && y < 16,
            Instruction::SubAssignSwapped { x, y } => x < 16 && y < 16,
            Instruction::LeftShiftAssign { x, y } => x < 16 && y < 16,
            Instruction::DrawSprite { x, y, height } => x < 16 && y < 16 && height < 16,
            Instruction::SkipOnKeyPressed { x } => x < 16,
            Instruction::SkipOnKeyNotPressed { x } => x < 16,
            Instruction::StoreDelayTimer { x } => x < 16,
            Instruction::WaitForKeyPress { x } => x < 16,
            Instruction::SetDelayTimer { x } => x < 16,
            Instruction::SetSoundTimer { x } => x < 16,
            Instruction::AddressRegisterAddAssign { x } => x < 16,
            Instruction::SetAddressRegisterToCharacter { x } => x < 16,
            Instruction::StoreBinaryCodedDecimal { x } => x < 16,
            Instruction::StoreVariableRegisters { x } => x < 16,
            Instruction::LoadVariableRegisters { x } => x < 16,
            _ => true,
        }
    }

    /// Decodes the four nibbles of an opcode, most significant first.
    pub fn decode(nibbles: [u8; 4]) -> (r: Instruction)
        requires
            nibbles[0] < 16,
            nibbles[1] < 16,
            nibbles[2] < 16,
            nibbles[3] < 16,
        ensures
            r == decode_spec(nibbles[0], nibbles[1], nibbles[2], nibbles[3]),
            r.well_formed(),
    {
        let a = nibbles[0];
        let b = nibbles[1];
        let c = nibbles[2];
        let d = nibbles[3];
        let address = combine_three_nibbles(b, c, d);
        let value = combine_two_nibbles(c, d);
        if a == 0 {
            if b == 0 && c == 0xE && d == 0 {
                Instruction::ClearScreen
            } else if b == 0 && c == 0xE && d == 0xE {
                Instruction::ReturnSubroutine
            } else {
                Instruction::NoOperation
            }
        } else if a == 1 {
            Instruction::Jump { address }
        } else if a == 2 {
            Instruction::CallSubroutine { address }
        } else if a == 3 {
            Instruction::SkipIfEqualValue { x: b, value }
        } else if a == 4 {
            Instruction::SkipIfNotEqualValue { x: b, value }
        } else if a == 5 {
            if d == 0 {
                Instruction::SkipIfEqual { x: b, y: c }
            } else {
                Instruction::NoOperation
            }
        } else if a == 6 {
            Instruction::AssignValue { x: b, value }
        } else if a == 7 {
            Instruction::AddAssignValue { x: b, value }
        } else if a == 8 {
            if d == 0 {
                Instruction::Assign { x: b, y: c }
            } else if d == 1 {
                Instruction::BitwiseOr { x: b, y: c }
            } else if d == 2 {
                Instruction::BitwiseAnd { x: b, y: c }
            } else if d == 3 {
                Instruction::BitwiseXor { x: b, y: c }
            } else if d == 4 {
                Instruction::AddAssign { x: b, y: c }
            } else if d == 5 {
                Instruction::SubAssign { x: b, y: c }
            } else if d == 6 {
                Instruction::RightShiftAssign { x: b, y: c }
            } else if d == 7 {
                Instruction::SubAssignSwapped { x: b, y: c }
            } else if d == 0xE {
                Instruction::LeftShiftAssign { x: b, y: c }
            } else {
                Instruction::NoOperation
            }
        } else if a == 9 {
            if d == 0 {
                Instruction::SkipIfNotEqual { x: b, y: c }
            } else {
                Instruction::NoOperation
            }
        } else if a == 0xA {
            Instruction::SetAddressRegister { address }
        } else if a == 0xB {
            Instruction::JumpOffset { address }
        } else if a == 0xC {
            Instruction::RandomNumberAssign { x: b, value }
        } else if a == 0xD {
            Instruction::DrawSprite { x: b, y: c, height: d }
        } else if a == 0xE {
            if c == 9 && d == 0xE {
                Instruction::SkipOnKeyPressed { x: b }
            } else if c == 0xA && d == 1 {
                Instruction::SkipOnKeyNotPressed { x: b }
            } else {
                Instruction::NoOperation
            }
        } else if a == 0xF {
            if c == 0 && d == 7 {
                Instruction::StoreDelayTimer { x: b }
            } else if c == 0 && d == 0xA {
                Instruction::WaitForKeyPress { x: b }
            } else if c == 1 && d == 5 {
                Instruction::SetDelayTimer { x: b }
            } else if c == 1 && d == 8 {
                Instruction::SetSoundTimer { x: b }
            } else if c == 1 && d == 0xE {
                Instruction::AddressRegisterAddAssign { x: b }
            } else if c == 2 && d == 9 {
                Instruction::SetAddressRegisterToCharacter { x: b }
            } else if c == 3 && d == 3 {
                Instruction::StoreBinaryCodedDecimal { x: b }
            } else if c == 5 && d == 5 {
                Instruction::StoreVariableRegisters { x: b }
            } else if c == 6 && d == 5 {
                Instruction::LoadVariableRegisters { x: b }
            } else {
                Instruction::NoOperation
            }
        } else {
            Instruction::NoOperation
        }
    }
}

} // verus!
