use chip8::opcode::Opcode;
use chip8::util::{byte_to_bits, concat_12, concat_8};

#[test]
fn test_nonexistant_opcode() {
    let code = 0xFFFF;
    assert_eq!(Opcode::from_bytes(code), Opcode::UNDEFINED);
}

#[test]
fn test_constant_opcode() {
    let code = 0x00EE;
    assert_eq!(Opcode::from_bytes(code), Opcode::RET);
}

#[test]
fn test_single_variable_opcode() {
    let code = 0xF565;
    assert_eq!(Opcode::from_bytes(code), Opcode::LD_V_I(5));
}

#[test]
fn test_double_variable_opcode() {
    let code = 0x8AB1;
    assert_eq!(Opcode::from_bytes(code), Opcode::OR(0xA, 0xB));
}

#[test]
fn test_triplet_variable_opcode() {
    let code = 0x0AF2;
    assert_eq!(Opcode::from_bytes(code), Opcode::SYS(0xAF2));
}

#[test]
fn test_single_double_variable_opcode() {
    let code = 0x72FE;
    assert_eq!(Opcode::from_bytes(code), Opcode::ADD(0x2, 0xFE));
}

#[test]
fn test_concat_12() {
    let a = 0b1010;
    let b = 0b0010;
    let c = 0b1101;

    let concat = concat_12(a, b, c);

    assert_eq!(concat, 0b101000101101);
}

#[test]
fn test_concat_8() {
    let a = 0b1011;
    let b = 0b0100;

    assert_eq!(concat_8(a, b), 0b10110100);
}

#[test]
fn test_byte_to_bits() {
    let byte = 0xF4;
    let bits = byte_to_bits(byte);

    assert_eq!(bits, [1, 1, 1, 1, 0, 1, 0, 0]);
}

#[test]
fn decode_is_deterministic_and_operands_in_range() {
    for w in 0..=0xFFFFu32 {
        let word = w as u16;
        let first = Opcode::from_bytes(word);
        assert_eq!(first, Opcode::from_bytes(word));
        match first {
            Opcode::SE(x, _) | Opcode::SNE(x, _) | Opcode::LD(x, _) | Opcode::ADD(x, _)
            | Opcode::RND(x, _) => assert!(x < 16),
            Opcode::DRW(x, y, n) => assert!(x < 16 && y < 16 && n < 16),
            Opcode::SYS(a) | Opcode::JP(a) | Opcode::CALL(a) | Opcode::LD_I(a)
            | Opcode::JP_V(a) => assert!(a < 0x1000),
            _ => {}
        }
    }
}

#[test]
fn decode_every_family() {
    assert_eq!(Opcode::from_bytes(0x00E0), Opcode::CLS);
    assert_eq!(Opcode::from_bytes(0x1234), Opcode::JP(0x234));
    assert_eq!(Opcode::from_bytes(0x2ABC), Opcode::CALL(0xABC));
    assert_eq!(Opcode::from_bytes(0x3A42), Opcode::SE(0xA, 0x42));
    assert_eq!(Opcode::from_bytes(0x4B07), Opcode::SNE(0xB, 0x07));
    assert_eq!(Opcode::from_bytes(0x5120), Opcode::SE_V(1, 2));
    assert_eq!(Opcode::from_bytes(0x5121), Opcode::UNDEFINED);
    assert_eq!(Opcode::from_bytes(0x6C99), Opcode::LD(0xC, 0x99));
    assert_eq!(Opcode::from_bytes(0x8120), Opcode::LD_V(1, 2));
    assert_eq!(Opcode::from_bytes(0x8122), Opcode::AND(1, 2));
    assert_eq!(Opcode::from_bytes(0x8123), Opcode::XOR(1, 2));
    assert_eq!(Opcode::from_bytes(0x8124), Opcode::ADD_V(1, 2));
    assert_eq!(Opcode::from_bytes(0x8125), Opcode::SUB(1, 2));
    assert_eq!(Opcode::from_bytes(0x8126), Opcode::SHR(1, 2));
    assert_eq!(Opcode::from_bytes(0x8127), Opcode::SUBN(1, 2));
    assert_eq!(Opcode::from_bytes(0x812E), Opcode::SHL(1, 2));
    assert_eq!(Opcode::from_bytes(0x8128), Opcode::UNDEFINED);
    assert_eq!(Opcode::from_bytes(0x9340), Opcode::SNE_V(3, 4));
    assert_eq!(Opcode::from_bytes(0x9341), Opcode::UNDEFINED);
    assert_eq!(Opcode::from_bytes(0xA123), Opcode::LD_I(0x123));
    assert_eq!(Opcode::from_bytes(0xB321), Opcode::JP_V(0x321));
    assert_eq!(Opcode::from_bytes(0xC50F), Opcode::RND(5, 0x0F));
    assert_eq!(Opcode::from_bytes(0xD12F), Opcode::DRW(1, 2, 0xF));
    assert_eq!(Opcode::from_bytes(0xE49E), Opcode::SKP(4));
    assert_eq!(Opcode::from_bytes(0xE4A1), Opcode::SKNP(4));
    assert_eq!(Opcode::from_bytes(0xE4A2), Opcode::UNDEFINED);
    assert_eq!(Opcode::from_bytes(0xF307), Opcode::LD_V_DT(3));
    assert_eq!(Opcode::from_bytes(0xF30A), Opcode::LD_K(3));
    assert_eq!(Opcode::from_bytes(0xF315), Opcode::LD_DT_V(3));
    assert_eq!(Opcode::from_bytes(0xF318), Opcode::LD_ST(3));
    assert_eq!(Opcode::from_bytes(0xF31E), Opcode::ADD_I(3));
    assert_eq!(Opcode::from_bytes(0xF329), Opcode::LD_F(3));
    assert_eq!(Opcode::from_bytes(0xF333), Opcode::LD_B(3));
    assert_eq!(Opcode::from_bytes(0xF355), Opcode::LD_I_V(3));
    assert_eq!(Opcode::from_bytes(0xF399), Opcode::UNDEFINED);
    assert_eq!(Opcode::from_bytes(0x00E1), Opcode::SYS(0x0E1));
}

#[test]
fn concat_of_wide_values_drops_high_bits() {
    assert_eq!(concat_8(0x1F, 0x3), 0xF3);
    assert_eq!(concat_12(0xF, 0xF, 0xF), 0xFFF);
    assert_eq!(byte_to_bits(0x01), [0, 0, 0, 0, 0, 0, 0, 1]);
    assert_eq!(byte_to_bits(0x80), [1, 0, 0, 0, 0, 0, 0, 0]);
}
