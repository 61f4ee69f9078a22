use chip8::opcode::{decode_op, make_3nibble_addr, OpCode, OpVal};

fn decoded(b0: u8, b1: u8) -> OpCode {
    decode_op(OpVal::from_bytes(b0, b1))
}

#[test]
fn word_splits_into_nibbles_most_significant_first() {
    assert_eq!(OpVal::from_bytes(0xAB, 0xCD).nibbles(), (0xA, 0xB, 0xC, 0xD));
    assert_eq!(OpVal::from_bytes(0x00, 0x00).nibbles(), (0, 0, 0, 0));
    assert_eq!(OpVal::from_bytes(0xFF, 0xFF).nibbles(), (15, 15, 15, 15));
    assert_eq!(OpVal::from_bytes(0x0F, 0xF0).nibbles(), (0, 15, 15, 0));
}

#[test]
fn three_nibbles_make_a_twelve_bit_address() {
    assert_eq!(make_3nibble_addr(0xA, 0xB, 0xC), 0xABC);
    assert_eq!(make_3nibble_addr(0, 0, 0), 0);
    assert_eq!(make_3nibble_addr(0xF, 0xF, 0xF), 0xFFF);
    assert_eq!(make_3nibble_addr(0x2, 0x0, 0x0), 0x200);
}

#[test]
fn decodes_display_and_flow_instructions() {
    assert_eq!(decoded(0x00, 0xE0), OpCode::Cls);
    assert_eq!(decoded(0x00, 0xEE), OpCode::Ret);
    assert_eq!(decoded(0x01, 0x23), OpCode::Sys(0x123));
    assert_eq!(decoded(0x00, 0xE1), OpCode::Sys(0x0E1));
    assert_eq!(decoded(0x12, 0x34), OpCode::Jp(0x234));
    assert_eq!(decoded(0x2F, 0xFF), OpCode::Call(0xFFF));
    assert_eq!(decoded(0xB2, 0x00), OpCode::JpRel(0x200));
}

#[test]
fn the_zero_word_is_a_native_call_to_address_zero() {
    assert_eq!(decoded(0x00, 0x00), OpCode::Sys(0));
}

#[test]
fn decodes_skip_instructions() {
    assert_eq!(decoded(0x3A, 0x7F), OpCode::Sec(0xA, 0x7F));
    assert_eq!(decoded(0x4B, 0x01), OpCode::Snec(0xB, 0x01));
    assert_eq!(decoded(0x51, 0x20), OpCode::Se(1, 2));
    assert_eq!(decoded(0x9E, 0xF0), OpCode::Sne(0xE, 0xF));
    assert_eq!(decoded(0xE3, 0x9E), OpCode::Skp(3));
    assert_eq!(decoded(0xE4, 0xA1), OpCode::Sknp(4));
}

#[test]
fn decodes_loads_and_stores() {
    assert_eq!(decoded(0x6C, 0xAB), OpCode::Ldc(0xC, 0xAB));
    assert_eq!(decoded(0x81, 0x20), OpCode::Ld(1, 2));
    assert_eq!(decoded(0xA1, 0x23), OpCode::Ldi(0x123));
    assert_eq!(decoded(0xF5, 0x07), OpCode::Lddt(5));
    assert_eq!(decoded(0xF6, 0x0A), OpCode::Ldtc(6));
    assert_eq!(decoded(0xF7, 0x15), OpCode::Stdt(7));
    assert_eq!(decoded(0xF8, 0x18), OpCode::Stst(8));
    assert_eq!(decoded(0xF9, 0x29), OpCode::Ldsprt(9));
    assert_eq!(decoded(0xFA, 0x33), OpCode::Stbcd(0xA));
    assert_eq!(decoded(0xFB, 0x55), OpCode::Stall(0xB));
    assert_eq!(decoded(0xFC, 0x65), OpCode::Ldall(0xC));
}

#[test]
fn decodes_arithmetic_and_logic() {
    assert_eq!(decoded(0x7D, 0x02), OpCode::Addc(0xD, 0x02));
    assert_eq!(decoded(0x8A, 0xB1), OpCode::Or(0xA, 0xB));
    assert_eq!(decoded(0x8A, 0xB2), OpCode::And(0xA, 0xB));
    assert_eq!(decoded(0x8A, 0xB3), OpCode::Xor(0xA, 0xB));
    assert_eq!(decoded(0x8A, 0xB4), OpCode::Add(0xA, 0xB));
    assert_eq!(decoded(0x8A, 0xB5), OpCode::Sub(0xA, 0xB));
    assert_eq!(decoded(0x8A, 0xB6), OpCode::Shr(0xA));
    assert_eq!(decoded(0x8A, 0xB7), OpCode::Subn(0xA, 0xB));
    assert_eq!(decoded(0x8A, 0xBE), OpCode::Shl(0xA));
    assert_eq!(decoded(0xFE, 0x1E), OpCode::Addi(0xE));
    assert_eq!(decoded(0xC1, 0x0F), OpCode::Rnd(1, 0x0F));
    assert_eq!(decoded(0xD1, 0x25), OpCode::Drw(1, 2, 5));
}

#[test]
fn words_outside_the_table_are_undefined() {
    assert_eq!(decoded(0x51, 0x21), OpCode::Undefined);
    assert_eq!(decoded(0x91, 0x2F), OpCode::Undefined);
    assert_eq!(decoded(0x81, 0x28), OpCode::Undefined);
    assert_eq!(decoded(0x81, 0x2F), OpCode::Undefined);
    assert_eq!(decoded(0xE1, 0x00), OpCode::Undefined);
    assert_eq!(decoded(0xE1, 0x9F), OpCode::Undefined);
    assert_eq!(decoded(0xF1, 0x00), OpCode::Undefined);
    assert_eq!(decoded(0xF1, 0xFF), OpCode::Undefined);
    assert_eq!(decoded(0xF1, 0x56), OpCode::Undefined);
}

#[test]
fn every_word_decodes_to_valid_operands() {
    for b0 in 0..=255u8 {
        for b1 in 0..=255u8 {
            assert!(decoded(b0, b1).is_valid());
        }
    }
}

#[test]
fn operands_out_of_range_are_not_valid() {
    assert!(!OpCode::Ldc(16, 0).is_valid());
    assert!(!OpCode::Se(3, 16).is_valid());
    assert!(!OpCode::Jp(0x1000).is_valid());
    assert!(!OpCode::Drw(0, 0, 16).is_valid());
    assert!(OpCode::Drw(15, 15, 15).is_valid());
    assert!(OpCode::Jp(0xFFF).is_valid());
}
