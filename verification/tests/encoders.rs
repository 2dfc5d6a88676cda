//! The instruction encoders, held to words taken from the generated
//! assembly of the ChaCha cluster backend.

use cipher_suite::encode;

#[test]
fn ror_encodes_the_rotate_words_of_the_round() {
    // Rotation registers of the quarter round: x16 holds 16, x17 holds 20.
    assert_eq!(encode::ror(28, 28, 17), ".4byte 0x91E5E33");
    assert_eq!(encode::ror(20, 20, 16), ".4byte 0x90A5A33");
}

#[test]
fn ror_zero_registers() {
    // Only funct7, funct3 and the opcode remain.
    assert_eq!(encode::ror(0, 0, 0), ".4byte 0x8005033");
}

#[test]
fn add_and_xor_emit_assembler_text() {
    assert_eq!(encode::add(16, 16, 20), "add x16, x16, x20");
    assert_eq!(encode::xor(28, 28, 16), "xor x28, x28, x16");
    assert_eq!(encode::add(0, 31, 5), "add x0, x31, x5");
}

#[test]
fn lw_pi_and_sw_pi_words() {
    // lw_pi t1, 4(a0!): rd = 6, imm = 4, rs1 = 10.
    assert_eq!(encode::lw_pi(6, 4, 10), ".4byte 0x45230B");
    assert_eq!(encode::sw_pi(5, 4, 10), ".4byte 0x55222B");
}

#[test]
fn lp_setup_words() {
    // The hardware loop of the round function: count in x14, 160 bytes.
    assert_eq!(encode::lp_setup(0, 14, 160), ".4byte 0xA07407B");
    assert_eq!(encode::lp_setupi(0, 14, 160), ".4byte 0xA07507B");
}

#[test]
fn operands_parse_numbers_and_register_names() {
    assert_eq!(encode::get_reg_operands("t0", "4", "a2"), Some((5, 4, 12)));
    assert_eq!(encode::get_reg_operands("28", "28", "5"), Some((28, 28, 5)));
    assert_eq!(
        encode::get_reg_operands("t6", "s4", "a3"),
        Some((31, 20, 13))
    );
    assert_eq!(
        encode::get_reg_operands("4294967295", "0", "0"),
        Some((u32::MAX, 0, 0))
    );
}

#[test]
fn unsupported_operands_are_refused() {
    // An unknown register name.
    assert_eq!(encode::get_reg_operands("x9", "0", "0"), None);
    // A number too large for a register operand word.
    assert_eq!(encode::get_reg_operands("4294967296", "0", "0"), None);
    // An empty token.
    assert_eq!(encode::get_reg_operands("", "1", "2"), None);
    // A register name the table does not hold.
    assert_eq!(encode::get_reg_operands("s5", "1", "2"), None);
}
