use librespectrum::cpu::flags::{Flags, FLAG_P, FLAG_S, FLAG_Z};
use librespectrum::cpu::instruction::{format_byte, format_number_with_sign, format_word, Instruction};
use librespectrum::cpu::tokens::{DataValue, Reg, Token};

#[test]
fn flags_follow_values() {
    let mut f = Flags::from_bits(0);
    f.set_zs_flags_u8(0);
    assert_eq!(f.bits(), FLAG_Z);
    f.set_zs_flags_u8(0x80);
    assert_eq!(f.bits(), FLAG_S);
    f.set_zs_flags_u16(0x8000).set_parity_flag(0x03);
    // parity set on even bit counts
    assert_eq!(f.bits(), FLAG_S | FLAG_P);
    f.set_parity_flag(0x01);
    assert!(!f.contains(FLAG_P));
    f.set_parity_flag(0x00);
    assert!(f.contains(FLAG_P));
}

#[test]
fn numbers_are_formatted_in_hex() {
    assert_eq!(format_byte(0x0a), "Ah");
    assert_eq!(format_byte(0xff), "FFh");
    assert_eq!(format_word(0x1234), "1234h");
    assert_eq!(format_number_with_sign(-2), "-2h");
    assert_eq!(format_number_with_sign(0x10), "+10h");
}

#[test]
fn operands_are_formatted() {
    let jr = Instruction { opcode: Token::JR(librespectrum::cpu::tokens::Condition::Always), displacement: Some(-2), data: None };
    assert_eq!(jr.format_addr_displacement(), "$+0h");
    assert_eq!(jr.expect_displacement(), -2);
    let ld = Instruction { opcode: Token::LD_RG_N(Reg::AtIX), displacement: Some(5), data: Some(DataValue::Byte(0x3c)) };
    assert_eq!(ld.format_reg(Reg::AtIX), "(IX+5h)");
    assert_eq!(ld.format_data(), "3Ch");
    assert_eq!(ld.expect_byte_data(), 0x3c);
    let jp = Instruction { opcode: Token::JP(librespectrum::cpu::tokens::Condition::Always), displacement: None, data: Some(DataValue::Word(0xbeef)) };
    assert_eq!(jp.expect_word_data(), 0xbeef);
    assert_eq!(jp.format_mnemonic(), "JP BEEFh");
}
