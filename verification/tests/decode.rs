use chip8_rust::chip8::instruction::{Instruction, UnknownOpcode};
use chip8_rust::chip8::register::RegisterIndex;
use chip8_rust::chip8::types::Nibble;

fn reg(v: u8) -> RegisterIndex {
    RegisterIndex::new(v).unwrap()
}

#[test]
fn decode_load_immediate() {
    assert_eq!(
        Instruction::decode(0x6A12).unwrap(),
        Instruction::Load(reg(0xA), 0x12)
    );
}

#[test]
fn decode_jump() {
    assert_eq!(Instruction::decode(0x1FED).unwrap(), Instruction::Jump(0xFED));
    assert_eq!(Instruction::decode(0x1000).unwrap(), Instruction::Jump(0x000));
}

#[test]
fn decode_call() {
    assert_eq!(Instruction::decode(0x2345).unwrap(), Instruction::Call(0x345));
}

#[test]
fn decode_add_immediate() {
    assert_eq!(
        Instruction::decode(0x70FF).unwrap(),
        Instruction::Add(reg(0x0), 0xFF)
    );
}

#[test]
fn decode_load_index() {
    assert_eq!(
        Instruction::decode(0xA123).unwrap(),
        Instruction::LoadIndexRegister(0x123)
    );
}

#[test]
fn decode_unconditional_groups_total() {
    // every word in the single-form groups decodes
    for w in 0u32..=0xFFFF {
        let w = w as u16;
        let top = w >> 12;
        let decoded = Instruction::decode(w);
        match top {
            0x1 | 0x2 | 0x3 | 0x4 | 0x5 | 0x6 | 0x7 | 0x9 | 0xA | 0xB | 0xC | 0xD => {
                assert!(decoded.is_ok(), "word {w:#06X} failed to decode");
            }
            _ => {
                // the remaining groups take a secondary selector; both
                // outcomes are legal, but decoding must not panic
                let _ = decoded;
            }
        }
    }
}

#[test]
fn decode_clear_and_return() {
    assert_eq!(Instruction::decode(0x00E0).unwrap(), Instruction::Clear);
    assert_eq!(Instruction::decode(0x00EE).unwrap(), Instruction::Return);
}

#[test]
fn decode_group_zero_rejects_other_words() {
    assert_eq!(Instruction::decode(0x0000), Err(UnknownOpcode { word: 0x0000 }));
    assert_eq!(Instruction::decode(0x0123), Err(UnknownOpcode { word: 0x0123 }));
}

#[test]
fn decode_arithmetic_group() {
    assert_eq!(
        Instruction::decode(0x8120).unwrap(),
        Instruction::LoadRegister(reg(1), reg(2))
    );
    assert_eq!(
        Instruction::decode(0x8341).unwrap(),
        Instruction::LoadOr(reg(3), reg(4))
    );
    assert_eq!(
        Instruction::decode(0x8562).unwrap(),
        Instruction::LoadAnd(reg(5), reg(6))
    );
    assert_eq!(
        Instruction::decode(0x8783).unwrap(),
        Instruction::LoadXor(reg(7), reg(8))
    );
    assert_eq!(
        Instruction::decode(0x89A4).unwrap(),
        Instruction::LoadAdd(reg(9), reg(0xA))
    );
    assert_eq!(
        Instruction::decode(0x8BC5).unwrap(),
        Instruction::LoadSub(reg(0xB), reg(0xC))
    );
    assert_eq!(
        Instruction::decode(0x8D06).unwrap(),
        Instruction::LoadShiftRight(reg(0xD))
    );
    assert_eq!(
        Instruction::decode(0x8EF7).unwrap(),
        Instruction::LoadSubNegative(reg(0xE), reg(0xF))
    );
    assert_eq!(
        Instruction::decode(0x801E).unwrap(),
        Instruction::LoadShiftLeft(reg(0))
    );
    assert_eq!(Instruction::decode(0x8008), Err(UnknownOpcode { word: 0x8008 }));
}

#[test]
fn decode_draw() {
    assert_eq!(
        Instruction::decode(0xD125).unwrap(),
        Instruction::Display(reg(1), reg(2), Nibble::new(5).unwrap())
    );
}

#[test]
fn decode_key_group() {
    assert_eq!(
        Instruction::decode(0xE39E).unwrap(),
        Instruction::SkipKeyPress(reg(3))
    );
    assert_eq!(
        Instruction::decode(0xE4A1).unwrap(),
        Instruction::SkipKeyNotPress(reg(4))
    );
    assert_eq!(Instruction::decode(0xE300), Err(UnknownOpcode { word: 0xE300 }));
}

#[test]
fn decode_timer_group() {
    assert_eq!(
        Instruction::decode(0xF107).unwrap(),
        Instruction::LoadDelayTimer(reg(1))
    );
    assert_eq!(
        Instruction::decode(0xF20A).unwrap(),
        Instruction::LoadKeyPress(reg(2))
    );
    assert_eq!(
        Instruction::decode(0xF315).unwrap(),
        Instruction::StoreDelayTimer(reg(3))
    );
    assert_eq!(
        Instruction::decode(0xF418).unwrap(),
        Instruction::StoreSoundTimer(reg(4))
    );
    assert_eq!(
        Instruction::decode(0xF51E).unwrap(),
        Instruction::AddIndexRegister(reg(5))
    );
    assert_eq!(
        Instruction::decode(0xF629).unwrap(),
        Instruction::LoadFontCharacter(reg(6))
    );
    assert_eq!(
        Instruction::decode(0xF733).unwrap(),
        Instruction::LoadBinaryCodedDecimal(reg(7))
    );
    assert_eq!(
        Instruction::decode(0xF855).unwrap(),
        Instruction::StoreRegisters(reg(8))
    );
    assert_eq!(
        Instruction::decode(0xF965).unwrap(),
        Instruction::LoadRegisters(reg(9))
    );
    assert_eq!(Instruction::decode(0xF0FF), Err(UnknownOpcode { word: 0xF0FF }));
}

#[test]
fn register_index_validates() {
    assert_eq!(RegisterIndex::new(15).unwrap().value(), 15);
    assert!(RegisterIndex::new(16).is_err());
}

#[test]
fn nibble_validates() {
    assert_eq!(Nibble::new(0xF).unwrap().value(), 0xF);
    assert!(Nibble::new(0x10).is_err());
}
