//! Bit-level instruction encoders.
//!
//! The cluster ISA offers a rotate-right, a hardware loop and
//! post-increment load/store that the assembler does not know, so the
//! ChaCha backend emits them as raw 32-bit words behind `.4byte`
//! directives, while the standard instructions go through the assembler as
//! text.  Each encoder's contract gives the emitted word as the exact OR
//! of its shifted bit fields, and the emitted text down to the character.

use vstd::prelude::*;
use vstd::string::*;

verus! {

/// Register-register rotate right: funct7 `0000100`, funct3 `101`,
/// opcode `0110011`.
pub open spec fn spec_ror_word(rd: u32, rs1: u32, rs2: u32) -> u32
    recommends
        rd < 32,
        rs1 < 32,
        rs2 < 32,
{
    (4u32 << 25) | (rs2 << 20) | (rs1 << 15) | (5u32 << 12) | (rd << 7) | 0x33u32
}

/// Post-increment load word: 11-bit immediate, funct3 `010`, opcode
/// `0001011`.
pub open spec fn spec_lw_pi_word(rd: u32, imm: u32, rs1: u32) -> u32
    recommends
        rd < 32,
        imm < 2048,
        rs1 < 32,
{
    (imm << 20) | (rs1 << 15) | (2u32 << 12) | (rd << 7) | 0x0Bu32
}

/// Post-increment store word: funct7 `0000000`, funct3 `010`, the
/// immediate in the destination field, opcode `0101011`.
pub open spec fn spec_sw_pi_word(rs2: u32, imm: u32, rs1: u32) -> u32
    recommends
        rs2 < 32,
        imm < 32,
        rs1 < 32,
{
    (rs2 << 20) | (rs1 << 15) | (2u32 << 12) | (imm << 7) | 0x2Bu32
}

/// Hardware loop setup with immediate count: funct3 `101`, opcode
/// `1111011`.
pub open spec fn spec_lp_setupi_word(uimms: u32, uimml: u32) -> u32
    recommends
        uimms < 32,
        uimml < 2048,
{
    (uimml << 20) | (uimms << 15) | (5u32 << 12) | 0x7Bu32
}

/// Hardware loop setup with count register: funct3 `100`, opcode
/// `1111011`.
pub open spec fn spec_lp_setup_word(rs1: u32, uimml: u32) -> u32
    recommends
        rs1 < 32,
        uimml < 2048,
{
    (uimml << 20) | (rs1 << 15) | (4u32 << 12) | 0x7Bu32
}

/// The uppercase hex digit for a value below 16.
pub open spec fn spec_hex_char(d: int) -> char {
    if d == 0 {
        '0'
    } else if d == 1 {
        '1'
    } else if d == 2 {
        '2'
    } else if d == 3 {
        '3'
    } else if d == 4 {
        '4'
    } else if d == 5 {
        '5'
    } else if d == 6 {
        '6'
    } else if d == 7 {
        '7'
    } else if d == 8 {
        '8'
    } else if d == 9 {
        '9'
    } else if d == 10 {
        'A'
    } else if d == 11 {
        'B'
    } else if d == 12 {
        'C'
    } else if d == 13 {
        'D'
    } else if d == 14 {
        'E'
    } else {
        'F'
    }
}

/// The uppercase hex digits of `x`, most significant first, without
/// leading zeros (a single `0` for zero itself).
pub open spec fn spec_hex_digits(x: nat) -> Seq<char>
    decreases x,
{
    if x < 16 {
        seq![spec_hex_char(x as int)]
    } else {
        spec_hex_digits(x / 16) + seq![spec_hex_char((x % 16) as int)]
    }
}

/// `x` written as a `0x`-prefixed uppercase hex literal.
pub open spec fn spec_hex_literal(x: nat) -> Seq<char> {
    "0x"@ + spec_hex_digits(x)
}

/// The raw-word directive the encoders emit for a word `w`.
pub open spec fn spec_directive(w: u32) -> Seq<char> {
    ".4byte "@ + spec_hex_literal(w as nat)
}

fn hex_digit_str(d: u32) -> (s: &'static str)
    requires
        d < 16,
    ensures
        s@ == seq![spec_hex_char(d as int)],
{
    proof {
        reveal_strlit("0");
        reveal_strlit("1");
        reveal_strlit("2");
        reveal_strlit("3");
        reveal_strlit("4");
        reveal_strlit("5");
        reveal_strlit("6");
        reveal_strlit("7");
        reveal_strlit("8");
        reveal_strlit("9");
        reveal_strlit("A");
        reveal_strlit("B");
        reveal_strlit("C");
        reveal_strlit("D");
        reveal_strlit("E");
        reveal_strlit("F");
    }
    let s = match d {
        0 => "0",
        1 => "1",
        2 => "2",
        3 => "3",
        4 => "4",
        5 => "5",
        6 => "6",
        7 => "7",
        8 => "8",
        9 => "9",
        10 => "A",
        11 => "B",
        12 => "C",
        13 => "D",
        14 => "E",
        _ => "F",
    };
    proof {
        assert(s@ =~= seq![spec_hex_char(d as int)]);
    }
    s
}

fn hex_digits(x: u32) -> (s: String)
    ensures
        s@ == spec_hex_digits(x as nat),
    decreases x,
{
    if x < 16 {
        let s = hex_digit_str(x).to_owned();
        s
    } else {
        let mut s = hex_digits(x / 16);
        s.append(hex_digit_str(x % 16));
        s
    }
}

/// Renders `w` as the `.4byte` directive with an uppercase hex literal,
/// exactly as the raw-word encoders emit it.
fn directive(w: u32) -> (s: String)
    ensures
        s@ == spec_directive(w),
{
    let mut s = ".4byte 0x".to_owned();
    proof {
        reveal_strlit(".4byte 0x");
        reveal_strlit(".4byte ");
        reveal_strlit("0x");
        assert(".4byte 0x"@ =~= ".4byte "@ + "0x"@);
    }
    let digits = hex_digits(w);
    s.append(digits.as_str());
    proof {
        assert(s@ =~= ".4byte "@ + ("0x"@ + spec_hex_digits(w as nat)));
    }
    s
}

/// Emits the rotate-right instruction `ror rd, rs1, rs2` as a raw word.
pub fn ror(rd: u32, rs1: u32, rs2: u32) -> (s: String)
    requires
        rd < 32,
        rs1 < 32,
        rs2 < 32,
    ensures
        s@ == spec_directive(spec_ror_word(rd, rs1, rs2)),
{
    let w = (4u32 << 25) | (rs2 << 20) | (rs1 << 15) | (5u32 << 12) | (rd << 7) | 0x33;
    directive(w)
}

/// Emits the post-increment load `lw_pi rd, imm(rs1!)` as a raw word.
pub fn lw_pi(rd: u32, imm: u32, rs1: u32) -> (s: String)
    requires
        rd < 32,
        imm < 2048,
        rs1 < 32,
    ensures
        s@ == spec_directive(spec_lw_pi_word(rd, imm, rs1)),
{
    let w = (imm << 20) | (rs1 << 15) | (2u32 << 12) | (rd << 7) | 0x0B;
    directive(w)
}

/// Emits the post-increment store `sw_pi rs2, imm(rs1!)` as a raw word;
/// offsets above 4 are not supported by the backend.
pub fn sw_pi(rs2: u32, imm: u32, rs1: u32) -> (s: String)
    requires
        rs2 < 32,
        imm <= 4,
        rs1 < 32,
    ensures
        s@ == spec_directive(spec_sw_pi_word(rs2, imm, rs1)),
{
    let w = (rs2 << 20) | (rs1 << 15) | (2u32 << 12) | (imm << 7) | 0x2B;
    directive(w)
}

/// Emits the hardware-loop setup with an immediate iteration count; only
/// loop 0 is supported.
pub fn lp_setupi(l: u32, uimms: u32, uimml: u32) -> (s: String)
    requires
        l == 0,
        uimms < 32,
        uimml < 2048,
    ensures
        s@ == spec_directive(spec_lp_setupi_word(uimms, uimml)),
{
    let _ = l;
    let w = (uimml << 20) | (uimms << 15) | (5u32 << 12) | 0x7B;
    directive(w)
}

/// Whether `s` is a non-empty string of decimal digits.
pub open spec fn spec_is_dec(s: Seq<char>) -> bool {
    s.len() >= 1 && forall|i: int| 0 <= i < s.len() ==> 48 <= #[trigger] s[i] as int <= 57
}

/// The value of a decimal digit string.
pub open spec fn spec_dec_val(s: Seq<char>) -> int
    decreases s.len(),
{
    if s.len() == 0 {
        0
    } else {
        spec_dec_val(s.drop_last()) * 10 + (s.last() as int - 48)
    }
}

/// The value of a digit string is never negative.
proof fn lemma_dec_val_nonneg(s: Seq<char>)
    requires
        forall|i: int| 0 <= i < s.len() ==> 48 <= #[trigger] s[i] as int <= 57,
    ensures
        spec_dec_val(s) >= 0,
    decreases s.len(),
{
    if s.len() > 0 {
        lemma_dec_val_nonneg(s.drop_last());
    }
}

/// Appending digits never shrinks the value of a digit string.
proof fn lemma_dec_val_extend(s: Seq<char>, t: Seq<char>)
    requires
        forall|i: int| 0 <= i < s.len() ==> 48 <= #[trigger] s[i] as int <= 57,
        forall|i: int| 0 <= i < t.len() ==> 48 <= #[trigger] t[i] as int <= 57,
    ensures
        spec_dec_val(s + t) >= spec_dec_val(s),
    decreases t.len(),
{
    if t.len() == 0 {
        assert(s + t =~= s);
    } else {
        let t1 = t.drop_last();
        lemma_dec_val_extend(s, t1);
        assert((s + t).drop_last() =~= s + t1);
        assert((s + t).last() == t.last());
        assert(forall|i: int|
            0 <= i < (s + t1).len() ==> 48 <= #[trigger] (s + t1)[i] as int <= 57);
        lemma_dec_val_nonneg(s + t1);
    }
}

/// Parses an unsigned decimal number, exactly as the platform integer
/// parser would: the whole token must be digits and the value must fit.
fn parse_dec(s: &str) -> (r: Option<u32>)
    ensures
        r == (if spec_is_dec(s@) && spec_dec_val(s@) <= u32::MAX {
            Some(spec_dec_val(s@) as u32)
        } else {
            Option::<u32>::None
        }),
{
    let n = s.unicode_len();
    if n == 0 {
        return None;
    }
    let mut acc: u32 = 0;
    let mut i: usize = 0;
    while i < n
        invariant
            i <= n,
            n == s@.len(),
            forall|j: int| 0 <= j < i ==> 48 <= #[trigger] s@[j] as int <= 57,
            acc == spec_dec_val(s@.subrange(0, i as int)),
        decreases n - i,
    {
        let c = s.get_char(i);
        let v = c as u32;
        if v < 48 || v > 57 {
            return None;
        }
        let d = v - 48;
        let ghost pre = s@.subrange(0, i as int);
        let ghost ext = s@.subrange(0, i + 1);
        proof {
            assert(ext.drop_last() =~= pre);
            assert(ext.last() == s@[i as int]);
        }
        if acc > (u32::MAX - d) / 10 {
            proof {
                assert(acc * 10 + d > u32::MAX);
                if spec_is_dec(s@) && spec_dec_val(s@) <= u32::MAX {
                    assert(spec_dec_val(ext) == acc * 10 + d);
                    lemma_dec_val_extend(ext, s@.subrange(i + 1, n as int));
                    assert(ext + s@.subrange(i + 1, n as int) =~= s@);
                    assert(false);
                }
            }
            return None;
        }
        acc = acc * 10 + d;
        i += 1;
    }
    proof {
        assert(s@.subrange(0, n as int) =~= s@);
    }
    Some(acc)
}

/// The register-name table the operand parser accepts, with each name's
/// hardware register number.
pub open spec fn spec_reg_map(s: Seq<char>) -> Option<u32> {
    if s == "t0"@ {
        Some(5u32)
    } else if s == "t1"@ {
        Some(6u32)
    } else if s == "t2"@ {
        Some(7u32)
    } else if s == "t3"@ {
        Some(28u32)
    } else if s == "t4"@ {
        Some(29u32)
    } else if s == "t5"@ {
        Some(30u32)
    } else if s == "t6"@ {
        Some(31u32)
    } else if s == "a0"@ {
        Some(10u32)
    } else if s == "a1"@ {
        Some(11u32)
    } else if s == "a2"@ {
        Some(12u32)
    } else if s == "a3"@ {
        Some(13u32)
    } else if s == "s2"@ {
        Some(18u32)
    } else if s == "s3"@ {
        Some(19u32)
    } else if s == "s4"@ {
        Some(20u32)
    } else {
        None
    }
}

fn reg_lookup(tok: &str) -> (r: Option<u32>)
    ensures
        r == spec_reg_map(tok@),
{
    proof {
        reveal_strlit("t0");
        reveal_strlit("t1");
        reveal_strlit("t2");
        reveal_strlit("t3");
        reveal_strlit("t4");
        reveal_strlit("t5");
        reveal_strlit("t6");
        reveal_strlit("a0");
        reveal_strlit("a1");
        reveal_strlit("a2");
        reveal_strlit("a3");
        reveal_strlit("s2");
        reveal_strlit("s3");
        reveal_strlit("s4");
    }
    let n = tok.unicode_len();
    if n != 2 {
        return None;
    }
    let c0 = tok.get_char(0);
    let c1 = tok.get_char(1);
    proof {
        assert(tok@ =~= seq![c0, c1]);
    }
    if c0 == 't' {
        if c1 == '0' {
            proof {
                assert(tok@ =~= "t0"@);
            }
            Some(5)
        } else if c1 == '1' {
            proof {
                assert(tok@ =~= "t1"@);
            }
            Some(6)
        } else if c1 == '2' {
            proof {
                assert(tok@ =~= "t2"@);
            }
            Some(7)
        } else if c1 == '3' {
            proof {
                assert(tok@ =~= "t3"@);
            }
            Some(28)
        } else if c1 == '4' {
            proof {
                assert(tok@ =~= "t4"@);
            }
            Some(29)
        } else if c1 == '5' {
            proof {
                assert(tok@ =~= "t5"@);
            }
            Some(30)
        } else if c1 == '6' {
            proof {
                assert(tok@ =~= "t6"@);
            }
            Some(31)
        } else {
            None
        }
    } else if c0 == 'a' {
        if c1 == '0' {
            proof {
                assert(tok@ =~= "a0"@);
            }
            Some(10)
        } else if c1 == '1' {
            proof {
                assert(tok@ =~= "a1"@);
            }
            Some(11)
        } else if c1 == '2' {
            proof {
                assert(tok@ =~= "a2"@);
            }
            Some(12)
        } else if c1 == '3' {
            proof {
                assert(tok@ =~= "a3"@);
            }
            Some(13)
        } else {
            None
        }
    } else if c0 == 's' {
        if c1 == '2' {
            proof {
                assert(tok@ =~= "s2"@);
            }
            Some(18)
        } else if c1 == '3' {
            proof {
                assert(tok@ =~= "s3"@);
            }
            Some(19)
        } else if c1 == '4' {
            proof {
                assert(tok@ =~= "s4"@);
            }
            Some(20)
        } else {
            None
        }
    } else {
        None
    }
}

/// What one operand token denotes: a decimal register number if the token
/// is a number that fits, otherwise the table entry for a register name,
/// otherwise nothing.
pub open spec fn spec_operand(s: Seq<char>) -> Option<u32> {
    if spec_is_dec(s) && spec_dec_val(s) <= u32::MAX {
        Some(spec_dec_val(s) as u32)
    } else {
        spec_reg_map(s)
    }
}

fn parse_operand(tok: &str) -> (r: Option<u32>)
    ensures
        r == spec_operand(tok@),
{
    match parse_dec(tok) {
        Some(v) => Some(v),
        None => reg_lookup(tok),
    }
}

/// Parses the three operand tokens of one instruction, numbers or named
/// registers; any unsupported operand refuses the whole triple.
pub fn get_reg_operands(a: &str, b: &str, c: &str) -> (r: Option<(u32, u32, u32)>)
    ensures
        r == (match (spec_operand(a@), spec_operand(b@), spec_operand(c@)) {
            (Some(x), Some(y), Some(z)) => Some((x, y, z)),
            _ => Option::<(u32, u32, u32)>::None,
        }),
{
    let ra = parse_operand(a);
    let rb = parse_operand(b);
    let rc = parse_operand(c);
    match (ra, rb, rc) {
        (Some(x), Some(y), Some(z)) => Some((x, y, z)),
        _ => None,
    }
}

/// The decimal name of register `r`, for `0 <= r < 32`.
pub open spec fn spec_reg_name(r: int) -> Seq<char> {
    if r == 0 {
        "0"@
    } else if r == 1 {
        "1"@
    } else if r == 2 {
        "2"@
    } else if r == 3 {
        "3"@
    } else if r == 4 {
        "4"@
    } else if r == 5 {
        "5"@
    } else if r == 6 {
        "6"@
    } else if r == 7 {
        "7"@
    } else if r == 8 {
        "8"@
    } else if r == 9 {
        "9"@
    } else if r == 10 {
        "10"@
    } else if r == 11 {
        "11"@
    } else if r == 12 {
        "12"@
    } else if r == 13 {
        "13"@
    } else if r == 14 {
        "14"@
    } else if r == 15 {
        "15"@
    } else if r == 16 {
        "16"@
    } else if r == 17 {
        "17"@
    } else if r == 18 {
        "18"@
    } else if r == 19 {
        "19"@
    } else if r == 20 {
        "20"@
    } else if r == 21 {
        "21"@
    } else if r == 22 {
        "22"@
    } else if r == 23 {
        "23"@
    } else if r == 24 {
        "24"@
    } else if r == 25 {
        "25"@
    } else if r == 26 {
        "26"@
    } else if r == 27 {
        "27"@
    } else if r == 28 {
        "28"@
    } else if r == 29 {
        "29"@
    } else if r == 30 {
        "30"@
    } else {
        "31"@
    }
}

fn reg_str(r: u32) -> (s: &'static str)
    requires
        r < 32,
    ensures
        s@ == spec_reg_name(r as int),
{
    match r {
        0 => "0",
        1 => "1",
        2 => "2",
        3 => "3",
        4 => "4",
        5 => "5",
        6 => "6",
        7 => "7",
        8 => "8",
        9 => "9",
        10 => "10",
        11 => "11",
        12 => "12",
        13 => "13",
        14 => "14",
        15 => "15",
        16 => "16",
        17 => "17",
        18 => "18",
        19 => "19",
        20 => "20",
        21 => "21",
        22 => "22",
        23 => "23",
        24 => "24",
        25 => "25",
        26 => "26",
        27 => "27",
        28 => "28",
        29 => "29",
        30 => "30",
        _ => "31",
    }
}

/// Emits the three-register add mnemonic for the assembler.
pub fn add(rd: u32, rs1: u32, rs2: u32) -> (s: String)
    requires
        rd < 32,
        rs1 < 32,
        rs2 < 32,
    ensures
        s@ == "add x"@ + spec_reg_name(rd as int) + ", x"@ + spec_reg_name(rs1 as int) + ", x"@
            + spec_reg_name(rs2 as int),
{
    let mut s = "add x".to_owned();
    s.append(reg_str(rd));
    s.append(", x");
    s.append(reg_str(rs1));
    s.append(", x");
    s.append(reg_str(rs2));
    s
}

/// Emits the three-register xor mnemonic for the assembler.
pub fn xor(rd: u32, rs1: u32, rs2: u32) -> (s: String)
    requires
        rd < 32,
        rs1 < 32,
        rs2 < 32,
    ensures
        s@ == "xor x"@ + spec_reg_name(rd as int) + ", x"@ + spec_reg_name(rs1 as int) + ", x"@
            + spec_reg_name(rs2 as int),
{
    let mut s = "xor x".to_owned();
    s.append(reg_str(rd));
    s.append(", x");
    s.append(reg_str(rs1));
    s.append(", x");
    s.append(reg_str(rs2));
    s
}

/// Emits the hardware-loop setup with the iteration count in a register;
/// only loop 0 is supported.
pub fn lp_setup(l: u32, rs1: u32, uimml: u32) -> (s: String)
    requires
        l == 0,
        rs1 < 32,
        uimml < 2048,
    ensures
        s@ == spec_directive(spec_lp_setup_word(rs1, uimml)),
{
    let _ = l;
    let w = (uimml << 20) | (rs1 << 15) | (4u32 << 12) | 0x7B;
    directive(w)
}

} // verus!
