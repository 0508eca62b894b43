//! Binary-to-instruction decoding: a pure function from a 16-bit word to a
//! tagged instruction variant, or to an explicit decode failure.
//!
//! Operands sit at fixed bit positions: `x` at bits 8-11, `y` at bits 4-7,
//! `kk` at bits 0-7, `nnn` at bits 0-11, `n` at bits 0-3. The top nibble
//! selects a primary group; groups 0x0, 0x8, 0xE and 0xF take a secondary
//! selector from the low byte or low nibble.

use vstd::prelude::*;

use crate::chip8::register::RegisterIndex;
use crate::chip8::types::Nibble;

verus! {

/// One decoded instruction, with its typed operands.
#[derive(Clone, Copy, Debug, PartialEq, Eq, Structural)]
pub enum Instruction {
    /// 00E0 - CLS
    Clear,
    /// 00EE - RET
    Return,
    /// 1nnn - JP addr
    Jump(u16),
    /// 2nnn - CALL addr
    Call(u16),
    /// 3xkk - SE Vx, byte
    SkipEqual(RegisterIndex, u8),
    /// 4xkk - SNE Vx, byte
    SkipNotEqual(RegisterIndex, u8),
    /// 5xy0 - SE Vx, Vy
    SkipEqualRegister(RegisterIndex, RegisterIndex),
    /// 6xkk - LD Vx, byte
    Load(RegisterIndex, u8),
    /// 7xkk - ADD Vx, byte
    Add(RegisterIndex, u8),
    /// 8xy0 - LD Vx, Vy
    LoadRegister(RegisterIndex, RegisterIndex),
    /// 8xy1 - OR Vx, Vy
    LoadOr(RegisterIndex, RegisterIndex),
    /// 8xy2 - AND Vx, Vy
    LoadAnd(RegisterIndex, RegisterIndex),
    /// 8xy3 - XOR Vx, Vy
    LoadXor(RegisterIndex, RegisterIndex),
    /// 8xy4 - ADD Vx, Vy
    LoadAdd(RegisterIndex, RegisterIndex),
    /// 8xy5 - SUB Vx, Vy
    LoadSub(RegisterIndex, RegisterIndex),
    /// 8xy6 - SHR Vx
    LoadShiftRight(RegisterIndex),
    /// 8xy7 - SUBN Vx, Vy
    LoadSubNegative(RegisterIndex, RegisterIndex),
    /// 8xyE - SHL Vx
    LoadShiftLeft(RegisterIndex),
    /// 9xy0 - SNE Vx, Vy
    SkipNotEqualRegister(RegisterIndex, RegisterIndex),
    /// Annn - LD I, addr
    LoadIndexRegister(u16),
    /// Bnnn - JP V0, addr
    JumpWithOffset(u16),
    /// Cxkk - RND Vx, byte
    Random(RegisterIndex, u8),
    /// Dxyn - DRW Vx, Vy, nibble
    Display(RegisterIndex, RegisterIndex, Nibble),
    /// Ex9E - SKP Vx
    SkipKeyPress(RegisterIndex),
    /// ExA1 - SKNP Vx
    SkipKeyNotPress(RegisterIndex),
    /// Fx07 - LD Vx, DT
    LoadDelayTimer(RegisterIndex),
    /// Fx0A - LD Vx, K
    LoadKeyPress(RegisterIndex),
    /// Fx15 - LD DT, Vx
    StoreDelayTimer(RegisterIndex),
    /// Fx18 - LD ST, Vx
    StoreSoundTimer(RegisterIndex),
    /// Fx1E - ADD I, Vx
    AddIndexRegister(RegisterIndex),
    /// Fx29 - LD F, Vx
    LoadFontCharacter(RegisterIndex),
    /// Fx33 - LD B, Vx
    LoadBinaryCodedDecimal(RegisterIndex),
    /// Fx55 - LD [I], Vx
    StoreRegisters(RegisterIndex),
    /// Fx65 - LD Vx, [I]
    LoadRegisters(RegisterIndex),
}

/// Rejection of a word that matches no instruction pattern.
#[derive(Clone, Copy, Debug, PartialEq, Eq, Structural)]
pub struct UnknownOpcode {
    /// The word that failed to decode.
    pub word: u16,
}

/// What a 16-bit word decodes to: a tagged variant, or `None` where the
/// word matches no known pattern. Decoding is total in this sense.
pub open spec fn decode_spec(w: u16) -> Option<Instruction> {
    let op = w >> 12;
    let x = RegisterIndex { v: ((w >> 8) & 0xF) as u8 };
    let y = RegisterIndex { v: ((w >> 4) & 0xF) as u8 };
    let kk = (w & 0xFF) as u8;
    let nnn = w & 0xFFF;
    let n = Nibble { v: (w & 0xF) as u8 };
    if op == 0x0 {
        if w == 0x00E0 {
            Some(Instruction::Clear)
        } else if w == 0x00EE {
            Some(Instruction::Return)
        } else {
            None
        }
    } else if op == 0x1 {
        Some(Instruction::Jump(nnn))
    } else if op == 0x2 {
        Some(Instruction::Call(nnn))
    } else if op == 0x3 {
        Some(Instruction::SkipEqual(x, kk))
    } else if op == 0x4 {
        Some(Instruction::SkipNotEqual(x, kk))
    } else if op == 0x5 {
        Some(Instruction::SkipEqualRegister(x, y))
    } else if op == 0x6 {
        Some(Instruction::Load(x, kk))
    } else if op == 0x7 {
        Some(Instruction::Add(x, kk))
    } else if op == 0x8 {
        let sub = w & 0xF;
        if sub == 0x0 {
            Some(Instruction::LoadRegister(x, y))
        } else if sub == 0x1 {
            Some(Instruction::LoadOr(x, y))
        } else if sub == 0x2 {
            Some(Instruction::LoadAnd(x, y))
        } else if sub == 0x3 {
            Some(Instruction::LoadXor(x, y))
        } else if sub == 0x4 {
            Some(Instruction::LoadAdd(x, y))
        } else if sub == 0x5 {
            Some(Instruction::LoadSub(x, y))
        } else if sub == 0x6 {
            Some(Instruction::LoadShiftRight(x))
        } else if sub == 0x7 {
            Some(Instruction::LoadSubNegative(x, y))
        } else if sub == 0xE {
            Some(Instruction::LoadShiftLeft(x))
        } else {
            None
        }
    } else if op == 0x9 {
        Some(Instruction::SkipNotEqualRegister(x, y))
    } else if op == 0xA {
        Some(Instruction::LoadIndexRegister(nnn))
    } else if op == 0xB {
        Some(Instruction::JumpWithOffset(nnn))
    } else if op == 0xC {
        Some(Instruction::Random(x, kk))
    } else if op == 0xD {
        Some(Instruction::Display(x, y, n))
    } else if op == 0xE {
        let sub = w & 0xFF;
        if sub == 0x9E {
            Some(Instruction::SkipKeyPress(x))
        } else if sub == 0xA1 {
            Some(Instruction::SkipKeyNotPress(x))
        } else {
            None
        }
    } else if op == 0xF {
        let sub = w & 0xFF;
        if sub == 0x07 {
            Some(Instruction::LoadDelayTimer(x))
        } else if sub == 0x0A {
            Some(Instruction::LoadKeyPress(x))
        } else if sub == 0x15 {
            Some(Instruction::StoreDelayTimer(x))
        } else if sub == 0x18 {
            Some(Instruction::StoreSoundTimer(x))
        } else if sub == 0x1E {
            Some(Instruction::AddIndexRegister(x))
        } else if sub == 0x29 {
            Some(Instruction::LoadFontCharacter(x))
        } else if sub == 0x33 {
            Some(Instruction::LoadBinaryCodedDecimal(x))
        } else if sub == 0x55 {
            Some(Instruction::StoreRegisters(x))
        } else if sub == 0x65 {
            Some(Instruction::LoadRegisters(x))
        } else {
            None
        }
    } else {
        None
    }
}

impl Instruction {
    /// Every register operand addresses one of the sixteen registers, every
    /// nibble operand is a 4-bit quantity, and every address operand is a
    /// 12-bit quantity. Decoding only produces such instructions.
    pub open spec fn wf(&self) -> bool {
        match *self {
            Instruction::Clear => true,
            Instruction::Return => true,
            Instruction::Jump(a) => a <= 0xFFF,
            Instruction::Call(a) => a <= 0xFFF,
            Instruction::SkipEqual(x, _) => x.wf(),
            Instruction::SkipNotEqual(x, _) => x.wf(),
            Instruction::SkipEqualRegister(x, y) => x.wf() && y.wf(),
            Instruction::Load(x, _) => x.wf(),
            Instruction::Add(x, _) => x.wf(),
            Instruction::LoadRegister(x, y) => x.wf() && y.wf(),
            Instruction::LoadOr(x, y) => x.wf() && y.wf(),
            Instruction::LoadAnd(x, y) => x.wf() && y.wf(),
            Instruction::LoadXor(x, y) => x.wf() && y.wf(),
            Instruction::LoadAdd(x, y) => x.wf() && y.wf(),
            Instruction::LoadSub(x, y) => x.wf() && y.wf(),
            Instruction::LoadShiftRight(x) => x.wf(),
            Instruction::LoadSubNegative(x, y) => x.wf() && y.wf(),
            Instruction::LoadShiftLeft(x) => x.wf(),
            Instruction::SkipNotEqualRegister(x, y) => x.wf() && y.wf(),
            Instruction::LoadIndexRegister(a) => a <= 0xFFF,
            Instruction::JumpWithOffset(a) => a <= 0xFFF,
            Instruction::Random(x, _) => x.wf(),
            Instruction::Display(x, y, n) => x.wf() && y.wf() && n.wf(),
            Instruction::SkipKeyPress(x) => x.wf(),
            Instruction::SkipKeyNotPress(x) => x.wf(),
            Instruction::LoadDelayTimer(x) => x.wf(),
            Instruction::LoadKeyPress(x) => x.wf(),
            Instruction::StoreDelayTimer(x) => x.wf(),
            Instruction::StoreSoundTimer(x) => x.wf(),
            Instruction::AddIndexRegister(x) => x.wf(),
            Instruction::LoadFontCharacter(x) => x.wf(),
            Instruction::LoadBinaryCodedDecimal(x) => x.wf(),
            Instruction::StoreRegisters(x) => x.wf(),
            Instruction::LoadRegisters(x) => x.wf(),
        }
    }

    /// Decodes a 16-bit word, reporting `UnknownOpcode` for a word that
    /// matches no instruction pattern.
    pub fn decode(raw_instruction: u16) -> (r: Result<Instruction, UnknownOpcode>)
        ensures
            r is Ok <==> decode_spec(raw_instruction) is Some,
            r matches Ok(inst) ==> decode_spec(raw_instruction) == Some(inst) && inst.wf(),
            r is Err ==> r == Err::<Instruction, UnknownOpcode>(
                UnknownOpcode { word: raw_instruction },
            ),
    {
        proof {
            lemma_operand_bounds(raw_instruction);
        }
        let w = raw_instruction;
        let op = w >> 12;
        let x = RegisterIndex { v: ((w >> 8) & 0xF) as u8 };
        let y = RegisterIndex { v: ((w >> 4) & 0xF) as u8 };
        let kk = (w & 0xFF) as u8;
        let nnn = w & 0xFFF;
        let n = Nibble { v: (w & 0xF) as u8 };
        let unknown = Err(UnknownOpcode { word: w });
        if op == 0x0 {
            if w == 0x00E0 {
                Ok(Instruction::Clear)
            } else if w == 0x00EE {
                Ok(Instruction::Return)
            } else {
                unknown
            }
        } else if op == 0x1 {
            Ok(Instruction::Jump(nnn))
        } else if op == 0x2 {
            Ok(Instruction::Call(nnn))
        } else if op == 0x3 {
            Ok(Instruction::SkipEqual(x, kk))
        } else if op == 0x4 {
            Ok(Instruction::SkipNotEqual(x, kk))
        } else if op == 0x5 {
            Ok(Instruction::SkipEqualRegister(x, y))
        } else if op == 0x6 {
            Ok(Instruction::Load(x, kk))
        } else if op == 0x7 {
            Ok(Instruction::Add(x, kk))
        } else if op == 0x8 {
            let sub = w & 0xF;
            if sub == 0x0 {
                Ok(Instruction::LoadRegister(x, y))
            } else if sub == 0x1 {
                Ok(Instruction::LoadOr(x, y))
            } else if sub == 0x2 {
                Ok(Instruction::LoadAnd(x, y))
            } else if sub == 0x3 {
                Ok(Instruction::LoadXor(x, y))
            } else if sub == 0x4 {
                Ok(Instruction::LoadAdd(x, y))
            } else if sub == 0x5 {
                Ok(Instruction::LoadSub(x, y))
            } else if sub == 0x6 {
                Ok(Instruction::LoadShiftRight(x))
            } else if sub == 0x7 {
                Ok(Instruction::LoadSubNegative(x, y))
            } else if sub == 0xE {
                Ok(Instruction::LoadShiftLeft(x))
            } else {
                unknown
            }
        } else if op == 0x9 {
            Ok(Instruction::SkipNotEqualRegister(x, y))
        } else if op == 0xA {
            Ok(Instruction::LoadIndexRegister(nnn))
        } else if op == 0xB {
            Ok(Instruction::JumpWithOffset(nnn))
        } else if op == 0xC {
            Ok(Instruction::Random(x, kk))
        } else if op == 0xD {
            Ok(Instruction::Display(x, y, n))
        } else if op == 0xE {
            let sub = w & 0xFF;
            if sub == 0x9E {
                Ok(Instruction::SkipKeyPress(x))
            } else if sub == 0xA1 {
                Ok(Instruction::SkipKeyNotPress(x))
            } else {
                unknown
            }
        } else if op == 0xF {
            let sub = w & 0xFF;
            if sub == 0x07 {
                Ok(Instruction::LoadDelayTimer(x))
            } else if sub == 0x0A {
                Ok(Instruction::LoadKeyPress(x))
            } else if sub == 0x15 {
                Ok(Instruction::StoreDelayTimer(x))
            } else if sub == 0x18 {
                Ok(Instruction::StoreSoundTimer(x))
            } else if sub == 0x1E {
                Ok(Instruction::AddIndexRegister(x))
            } else if sub == 0x29 {
                Ok(Instruction::LoadFontCharacter(x))
            } else if sub == 0x33 {
                Ok(Instruction::LoadBinaryCodedDecimal(x))
            } else if sub == 0x55 {
                Ok(Instruction::StoreRegisters(x))
            } else if sub == 0x65 {
                Ok(Instruction::LoadRegisters(x))
            } else {
                unknown
            }
        } else {
            unknown
        }
    }
}

/// Bounds of the fixed-position operand fields of a word.
proof fn lemma_operand_bounds(w: u16)
    by (bit_vector)
    ensures
        (w >> 12) <= 0xF,
        ((w >> 8) & 0xF) < 16,
        ((w >> 4) & 0xF) < 16,
        (w & 0xF) < 16,
        (w & 0xFF) <= 0xFF,
        (w & 0xFFF) <= 0xFFF,
{
}

/// For every word whose top nibble selects one of the unconditional groups
/// (jump, call, load-immediate, add-immediate, load-index), decoding
/// succeeds, and the operands come from the documented bit positions: the
/// address from bits 0-11, the register from bits 8-11, the immediate byte
/// from bits 0-7.
pub proof fn lemma_decode_unconditional_groups(w: u16)
    ensures
        (w >> 12) == 0x1 ==> decode_spec(w) == Some(Instruction::Jump(w & 0xFFF)),
        (w >> 12) == 0x2 ==> decode_spec(w) == Some(Instruction::Call(w & 0xFFF)),
        (w >> 12) == 0x6 ==> decode_spec(w) == Some(
            Instruction::Load(RegisterIndex { v: ((w >> 8) & 0xF) as u8 }, (w & 0xFF) as u8),
        ),
        (w >> 12) == 0x7 ==> decode_spec(w) == Some(
            Instruction::Add(RegisterIndex { v: ((w >> 8) & 0xF) as u8 }, (w & 0xFF) as u8),
        ),
        (w >> 12) == 0xA ==> decode_spec(w) == Some(Instruction::LoadIndexRegister(w & 0xFFF)),
{
}

} // verus!
