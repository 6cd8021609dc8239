//! Lexical ground work of the assembler: whitespace tokenization and
//! multi-radix numeric literals.
//!
//! A numeric literal is hexadecimal after a `$` prefix, binary after a `%`
//! prefix, and decimal otherwise; its value must fit in a byte.

use vstd::prelude::*;

use crate::mnemonics::{
    arity_of, mnemonic_opcode, opcode_shape, parse_register, shape_arity, shape_for_opcode,
    spec_mnemonic, spec_parse_register,
};
use crate::op::{Instruction, OperandShape, u8_bits};
use crate::register::Register;

verus! {

/// The whitespace that separates tokens on a source line.
pub open spec fn is_space(c: char) -> bool {
    c == ' ' || c == '\t'
}

/// Tokenization with an accumulator: `cur` holds the token being read.
pub open spec fn tokenize_rec(s: Seq<char>, cur: Seq<char>) -> Seq<Seq<char>>
    decreases s.len(),
{
    if s.len() == 0 {
        if cur.len() == 0 {
            Seq::empty()
        } else {
            seq![cur]
        }
    } else if is_space(s[0]) {
        if cur.len() == 0 {
            tokenize_rec(s.drop_first(), Seq::empty())
        } else {
            seq![cur] + tokenize_rec(s.drop_first(), Seq::empty())
        }
    } else {
        tokenize_rec(s.drop_first(), cur.push(s[0]))
    }
}

/// The whitespace-separated tokens of a source line.
pub open spec fn tokens_of(s: Seq<char>) -> Seq<Seq<char>> {
    tokenize_rec(s, Seq::empty())
}

/// Reading a run of non-space characters extends the current token to the
/// end of the run.
proof fn lemma_token_run(s: Seq<char>, i: int, j: int, cur: Seq<char>)
    requires
        0 <= i <= j <= s.len(),
        forall|k: int| i <= k < j ==> !is_space(s[k]),
        j == s.len() || is_space(s[j]),
        cur.len() + (j - i) > 0,
    ensures
        tokenize_rec(s.skip(i), cur) == seq![cur + s.subrange(i, j)] + tokenize_rec(
            s.skip(j),
            Seq::empty(),
        ),
    decreases j - i,
{
    if i == j {
        assert(cur + s.subrange(i, j) =~= cur);
        if j == s.len() {
            assert(s.skip(j) =~= Seq::<char>::empty());
            assert(tokenize_rec(s.skip(i), cur) =~= seq![cur]);
            assert(seq![cur] + tokenize_rec(s.skip(j), Seq::empty()) =~= seq![cur]);
        } else {
            assert(s.skip(i)[0] == s[i]);
            assert(s.skip(i).drop_first() =~= s.skip(i + 1));
        }
    } else {
        assert(s.skip(i)[0] == s[i]);
        assert(!is_space(s[i]));
        assert(s.skip(i).drop_first() =~= s.skip(i + 1));
        lemma_token_run(s, i + 1, j, cur.push(s[i]));
        assert(cur.push(s[i]) + s.subrange(i + 1, j) =~= cur + s.subrange(i, j));
    }
}

/// Exec counterpart of [`is_space`].
fn is_space_char(c: char) -> (b: bool)
    ensures
        b == is_space(c),
{
    c == ' ' || c == '\t'
}

/// Split `s` into its whitespace-separated tokens.
pub fn tokenize(s: &str) -> (tokens: Vec<String>)
    ensures
        tokens.deep_view() == tokens_of(s@),
{
    let n = s.unicode_len();
    let mut out: Vec<String> = Vec::new();
    let mut i: usize = 0;
    proof {
        assert(s@.skip(0) =~= s@);
        assert(out.deep_view() =~= Seq::<Seq<char>>::empty());
    }
    while i < n
        invariant
            0 <= i <= n,
            n == s@.len(),
            tokens_of(s@) == out.deep_view() + tokenize_rec(s@.skip(i as int), Seq::empty()),
        decreases n - i,
    {
        let c = s.get_char(i);
        if c == ' ' || c == '\t' {
            proof {
                assert(s@.skip(i as int)[0] == s@[i as int]);
                assert(s@.skip(i as int).drop_first() =~= s@.skip(i as int + 1));
            }
            i = i + 1;
        } else {
            let mut j: usize = i + 1;
            while j < n && !is_space_char(s.get_char(j))
                invariant
                    i < j <= n,
                    n == s@.len(),
                    forall|k: int| i <= k < j ==> !is_space(s@[k]),
                decreases n - j,
            {
                j = j + 1;
            }
            let tok = s.substring_char(i, j).to_owned();
            proof {
                lemma_token_run(s@, i as int, j as int, Seq::empty());
                assert(Seq::empty() + s@.subrange(i as int, j as int) =~= s@.subrange(
                    i as int,
                    j as int,
                ));
            }
            let ghost out0 = out.deep_view();
            out.push(tok);
            proof {
                assert(out.deep_view() =~= out0.push(tok@));
                assert(out0.push(tok@) =~= out0 + seq![s@.subrange(i as int, j as int)]);
            }
            i = j;
        }
    }
    proof {
        assert(s@.skip(n as int) =~= Seq::<char>::empty());
    }
    out
}

/// The value of a digit character: 0 to 15 for the hexadecimal digits in
/// either case, 16 for every other character.
pub open spec fn digit_val(c: char) -> nat {
    if c == '0' {
        0
    } else if c == '1' {
        1
    } else if c == '2' {
        2
    } else if c == '3' {
        3
    } else if c == '4' {
        4
    } else if c == '5' {
        5
    } else if c == '6' {
        6
    } else if c == '7' {
        7
    } else if c == '8' {
        8
    } else if c == '9' {
        9
    } else if c == 'a' || c == 'A' {
        10
    } else if c == 'b' || c == 'B' {
        11
    } else if c == 'c' || c == 'C' {
        12
    } else if c == 'd' || c == 'D' {
        13
    } else if c == 'e' || c == 'E' {
        14
    } else if c == 'f' || c == 'F' {
        15
    } else {
        16
    }
}

/// Exec counterpart of [`digit_val`].
fn digit_of(c: char) -> (d: u8)
    ensures
        d as nat == digit_val(c),
{
    match c {
        '0' => 0,
        '1' => 1,
        '2' => 2,
        '3' => 3,
        '4' => 4,
        '5' => 5,
        '6' => 6,
        '7' => 7,
        '8' => 8,
        '9' => 9,
        'a' | 'A' => 10,
        'b' | 'B' => 11,
        'c' | 'C' => 12,
        'd' | 'D' => 13,
        'e' | 'E' => 14,
        'f' | 'F' => 15,
        _ => 16,
    }
}

/// The value of a digit string in the given radix: `None` when the string
/// is empty or any character is not a digit of the radix.
pub open spec fn digits_val(s: Seq<char>, radix: nat) -> Option<nat>
    decreases s.len(),
{
    if s.len() == 0 {
        None
    } else if s.len() == 1 {
        if digit_val(s[0]) < radix {
            Some(digit_val(s[0]))
        } else {
            None
        }
    } else {
        match digits_val(s.drop_last(), radix) {
            None => None,
            Some(v) => if digit_val(s.last()) < radix {
                Some(v * radix + digit_val(s.last()))
            } else {
                None
            },
        }
    }
}

/// A digit string's value only grows as digits are appended.
proof fn lemma_digits_prefix_bound(s: Seq<char>, radix: nat, m: int)
    requires
        radix >= 1,
        1 <= m <= s.len(),
        digits_val(s, radix) is Some,
    ensures
        digits_val(s.take(m), radix) is Some,
        digits_val(s.take(m), radix)->Some_0 <= digits_val(s, radix)->Some_0,
    decreases s.len() - m,
{
    if m == s.len() {
        assert(s.take(m) =~= s);
    } else {
        lemma_digits_prefix_bound(s, radix, m + 1);
        let t = s.take(m + 1);
        assert(t.drop_last() =~= s.take(m));
        assert(t.len() >= 1);
        if t.len() == 1 {
            // take(m) is empty only when m == 0, excluded by the bounds
            assert(m == 0);
        } else {
            let v = digits_val(s.take(m), radix)->Some_0;
            assert(digits_val(t, radix)->Some_0 == v * radix + digit_val(t.last()));
            assert(v * radix >= v) by (nonlinear_arith)
                requires radix >= 1, v >= 0;
        }
    }
}

/// A string with an out-of-radix character at index `k` has no value.
proof fn lemma_digits_invalid(s: Seq<char>, radix: nat, k: int)
    requires
        0 <= k < s.len(),
        digit_val(s[k]) >= radix,
    ensures
        digits_val(s, radix) is None,
    decreases s.len(),
{
    if s.len() > 1 && k < s.len() - 1 {
        lemma_digits_invalid(s.drop_last(), radix, k);
    }
}

/// The numeric value of a literal token: `$` prefixes hexadecimal, `%`
/// prefixes binary, otherwise decimal; the value must fit in a byte.
pub open spec fn spec_parse_numeric(s: Seq<char>) -> Option<u8> {
    if s.len() == 0 {
        None
    } else {
        let digits = if s[0] == '$' || s[0] == '%' {
            s.drop_first()
        } else {
            s
        };
        let radix: nat = if s[0] == '$' {
            16
        } else if s[0] == '%' {
            2
        } else {
            10
        };
        match digits_val(digits, radix) {
            Some(v) => if v <= 255 {
                Some(v as u8)
            } else {
                None
            },
            None => None,
        }
    }
}

/// Parse a numeric literal token: `$hex`, `%binary` or decimal, with a
/// value that fits in a byte.
pub fn parse_numeric(s: &str) -> (r: Option<u8>)
    ensures
        r == spec_parse_numeric(s@),
{
    let n = s.unicode_len();
    if n == 0 {
        return None;
    }
    let first = s.get_char(0);
    let radix: u16 = if first == '$' {
        16
    } else if first == '%' {
        2
    } else {
        10
    };
    let start: usize = if first == '$' || first == '%' {
        1
    } else {
        0
    };
    let ghost digits = if first == '$' || first == '%' {
        s@.drop_first()
    } else {
        s@
    };
    proof {
        assert(digits =~= s@.subrange(start as int, n as int));
    }
    if start >= n {
        return None;
    }
    let mut acc: u16 = 0;
    let mut i: usize = start;
    while i < n
        invariant
            start <= i <= n,
            n == s@.len(),
            0 < n,
            start < n,
            radix as nat == (if s@[0] == '$' {
                16nat
            } else if s@[0] == '%' {
                2nat
            } else {
                10nat
            }),
            start == (if s@[0] == '$' || s@[0] == '%' {
                1int
            } else {
                0int
            }),
            digits == (if s@[0] == '$' || s@[0] == '%' {
                s@.drop_first()
            } else {
                s@
            }),
            digits =~= s@.subrange(start as int, n as int),
            acc <= 255,
            i > start ==> digits_val(digits.take(i - start), radix as nat) == Some(acc as nat),
            i == start ==> acc == 0,
        decreases n - i,
    {
        let d = digit_of(s.get_char(i));
        if d as u16 >= radix {
            proof {
                assert(digits[i - start] == s@[i as int]);
                lemma_digits_invalid(digits, radix as nat, i - start);
                assert(digits_val(digits, radix as nat) is None);
                assert(spec_parse_numeric(s@) is None);
            }
            return None;
        }
        let newacc: u16 = acc * radix + d as u16;
        proof {
            let t = digits.take(i - start + 1);
            assert(t.last() == digits[i - start]);
            assert(digits[i - start] == s@[i as int]);
            assert(t.drop_last() =~= digits.take(i - start));
            assert(digits_val(t, radix as nat) == Some(newacc as nat));
        }
        if newacc > 255 {
            proof {
                if digits_val(digits, radix as nat) is Some {
                    lemma_digits_prefix_bound(digits, radix as nat, i - start + 1);
                    assert(digits_val(digits, radix as nat)->Some_0 >= newacc);
                }
                assert(spec_parse_numeric(s@) is None);
            }
            return None;
        }
        acc = newacc;
        i = i + 1;
    }
    proof {
        assert(digits.take(n - start) =~= digits);
    }
    Some(acc as u8)
}

/// The failure of parsing one source line into an instruction, before a
/// line number is attached.
#[derive(Clone, PartialEq, Eq, Debug)]
pub enum InstructionParseError {
    /// The line holds no tokens.
    NoContent,
    /// The first token is not an instruction name; carries the token.
    InvalidOpCode(String),
    /// Wrong token count for the instruction's operand shape; carries the
    /// expected and the actual count.
    ArityMismatch(usize, usize),
    /// An operand token that is not a valid numeral or register name.
    InvalidOperand(String),
    /// A `^name` reference to a label the table does not hold.
    UnresolvedLabel(String),
}

/// An assembly failure, carrying the 1-based number of the offending line.
#[derive(Clone, PartialEq, Eq, Debug)]
pub enum JamParseError {
    /// An unknown instruction name; carries the token and the line number.
    InvalidOpCode(String, usize),
    /// Wrong operand count; carries the expected count, the actual count
    /// and the line number.
    ArityMismatch(usize, usize, usize),
    /// An unparsable operand token; carries the token and the line number.
    InvalidOperand(String, usize),
    /// An unresolved label reference; carries the name and the line number.
    UnresolvedLabel(String, usize),
    /// A line with nothing to assemble: blank, comment-only, or a label
    /// definition.
    Empty(usize),
}

/// What parsing one line's tokens yields: an instruction, nothing, or one
/// of the failures, each carrying the text it blames.
pub ghost enum ParseOutcome {
    Empty,
    Instr(Instruction),
    BadName(Seq<char>),
    BadArity(int, int),
    BadOperand(Seq<char>),
    BadLabel(Seq<char>),
}

/// The label table a sequence of (name, address) pairs denotes; a later
/// entry with the same name replaces the earlier one.
pub open spec fn label_map(pairs: Seq<(String, u8)>) -> Map<Seq<char>, u8>
    decreases pairs.len(),
{
    if pairs.len() == 0 {
        Map::empty()
    } else {
        label_map(pairs.drop_last()).insert(pairs.last().0@, pairs.last().1)
    }
}

/// Look a label name up in the table.
pub fn lookup_label(pairs: &Vec<(String, u8)>, name: &str) -> (r: Option<u8>)
    ensures
        r == label_map(pairs@).index_opt(name@),
{
    let n = pairs.len();
    proof {
        assert(pairs@.take(n as int) =~= pairs@);
    }
    let mut i: usize = n;
    while i > 0
        invariant
            0 <= i <= n,
            n == pairs@.len(),
            label_map(pairs@).index_opt(name@) == label_map(pairs@.take(i as int)).index_opt(
                name@,
            ),
        decreases i,
    {
        proof {
            assert(pairs@.take(i as int).drop_last() =~= pairs@.take(i as int - 1));
            assert(pairs@.take(i as int).last() == pairs@[i as int - 1]);
        }
        if crate::text::str_eq(pairs[i - 1].0.as_str(), name) {
            let v = pairs[i - 1].1;
            return Some(v);
        }
        i = i - 1;
    }
    proof {
        assert(pairs@.take(0) =~= Seq::<(String, u8)>::empty());
    }
    None
}

/// The byte an offset operand denotes: a `^name` is the label's address; a
/// leading minus negates a decimal magnitude of at most 128 in two's
/// complement; anything else is a plain numeral.
pub open spec fn spec_parse_label(labels: Map<Seq<char>, u8>, s: Seq<char>) -> Option<u8> {
    if s.len() > 0 && s[0] == '^' {
        labels.index_opt(s.drop_first())
    } else if s.len() > 1 && s[0] == '-' {
        match spec_parse_numeric(s.drop_first()) {
            Some(v) => if v <= 128 {
                Some(((256 - v as int) % 256) as u8)
            } else {
                None
            },
            None => None,
        }
    } else {
        spec_parse_numeric(s)
    }
}

/// Resolve an offset operand against the label table `pairs`.
pub fn parse_label_in(pairs: &Vec<(String, u8)>, s: &str) -> (r: Option<u8>)
    ensures
        r == spec_parse_label(label_map(pairs@), s@),
{
    let n = s.unicode_len();
    if n > 0 && s.get_char(0) == '^' {
        let rest = s.substring_char(1, n);
        proof {
            assert(rest@ =~= s@.drop_first());
        }
        lookup_label(pairs, rest)
    } else if n > 1 && s.get_char(0) == '-' {
        let rest = s.substring_char(1, n);
        proof {
            assert(rest@ =~= s@.drop_first());
        }
        match parse_numeric(rest) {
            Some(v) => if v <= 128 {
                Some(((256 - v as u16) % 256) as u8)
            } else {
                None
            },
            None => None,
        }
    } else {
        parse_numeric(s)
    }
}

/// The instruction an immediate-shaped opcode builds.
pub open spec fn build_immediate(op: u8, v: u8) -> Instruction {
    if op == 0x10 {
        Instruction::Push(v)
    } else {
        Instruction::Signal(v)
    }
}

/// The instruction a one-register opcode builds.
pub open spec fn build_one_register(op: u8, r: Register) -> Instruction {
    if op == 0x11 {
        Instruction::Pop(r)
    } else if op == 0x12 {
        Instruction::PushReg(r)
    } else {
        Instruction::Not(r)
    }
}

/// The instruction a two-register opcode builds.
pub open spec fn build_two_registers(op: u8, r1: Register, r2: Register) -> Instruction {
    if op == 0x13 {
        Instruction::Load(r1, r2)
    } else if op == 0x14 {
        Instruction::Store(r1, r2)
    } else if op == 0x15 {
        Instruction::Mov(r1, r2)
    } else if op == 0x20 {
        Instruction::Add(r1, r2)
    } else if op == 0x21 {
        Instruction::Sub(r1, r2)
    } else if op == 0x22 {
        Instruction::Mul(r1, r2)
    } else if op == 0x23 {
        Instruction::Div(r1, r2)
    } else if op == 0x24 {
        Instruction::Shl(r1, r2)
    } else if op == 0x25 {
        Instruction::Shr(r1, r2)
    } else if op == 0x26 {
        Instruction::And(r1, r2)
    } else if op == 0x27 {
        Instruction::Or(r1, r2)
    } else if op == 0x28 {
        Instruction::Xor(r1, r2)
    } else {
        Instruction::Cmp(r1, r2)
    }
}

/// The instruction an offset-shaped opcode builds.
pub open spec fn build_offset(op: u8, o: i8) -> Instruction {
    if op == 0x30 {
        Instruction::Jmp(o)
    } else if op == 0x31 {
        Instruction::Je(o)
    } else {
        Instruction::Jne(o)
    }
}

/// Parse one line's tokens against the instruction table and the label
/// table: resolve the name case-insensitively, check the operand count
/// against the operand shape, and parse each operand.
pub open spec fn spec_parse_instr(labels: Map<Seq<char>, u8>, toks: Seq<Seq<char>>) -> ParseOutcome {
    if toks.len() == 0 {
        ParseOutcome::Empty
    } else {
        match spec_mnemonic(toks[0]) {
            None => ParseOutcome::BadName(toks[0]),
            Some(op) => {
                let shape = shape_for_opcode(op);
                if toks.len() != shape_arity(shape) {
                    ParseOutcome::BadArity(shape_arity(shape), toks.len() as int)
                } else {
                    match shape {
                        OperandShape::NoOperands => ParseOutcome::Instr(Instruction::Nop),
                        OperandShape::Immediate => match spec_parse_numeric(toks[1]) {
                            None => ParseOutcome::BadOperand(toks[1]),
                            Some(v) => ParseOutcome::Instr(build_immediate(op, v)),
                        },
                        OperandShape::OneRegister => match spec_parse_register(toks[1]) {
                            None => ParseOutcome::BadOperand(toks[1]),
                            Some(r) => ParseOutcome::Instr(build_one_register(op, r)),
                        },
                        OperandShape::TwoRegisters => match spec_parse_register(toks[1]) {
                            None => ParseOutcome::BadOperand(toks[1]),
                            Some(r1) => match spec_parse_register(toks[2]) {
                                None => ParseOutcome::BadOperand(toks[2]),
                                Some(r2) => ParseOutcome::Instr(build_two_registers(op, r1, r2)),
                            },
                        },
                        OperandShape::Offset => match spec_parse_label(labels, toks[1]) {
                            Some(b) => ParseOutcome::Instr(build_offset(op, u8_bits(b))),
                            None => if toks[1].len() > 0 && toks[1][0] == '^' {
                                ParseOutcome::BadLabel(toks[1])
                            } else {
                                ParseOutcome::BadOperand(toks[1])
                            },
                        },
                    }
                }
            },
        }
    }
}

/// Whether the exec result `r` reports exactly the outcome `out`.
pub open spec fn reports(r: Result<Instruction, InstructionParseError>, out: ParseOutcome) -> bool {
    match r {
        Ok(i) => out == ParseOutcome::Instr(i),
        Err(e) => match e {
            InstructionParseError::NoContent => out == ParseOutcome::Empty,
            InstructionParseError::InvalidOpCode(t) => out == ParseOutcome::BadName(t@),
            InstructionParseError::ArityMismatch(a, b) => out == ParseOutcome::BadArity(
                a as int,
                b as int,
            ),
            InstructionParseError::InvalidOperand(t) => out == ParseOutcome::BadOperand(t@),
            InstructionParseError::UnresolvedLabel(t) => out == ParseOutcome::BadLabel(t@),
        },
    }
}

/// Parse one line's tokens into an instruction, resolving offset operands
/// against the label table `pairs`.
pub fn parse_instruction_tokens(pairs: &Vec<(String, u8)>, toks: &Vec<String>) -> (r: Result<
    Instruction,
    InstructionParseError,
>)
    ensures
        reports(r, spec_parse_instr(label_map(pairs@), toks.deep_view())),
{
    if toks.len() == 0 {
        return Err(InstructionParseError::NoContent);
    }
    let op = match mnemonic_opcode(toks[0].as_str()) {
        Some(op) => op,
        None => {
            return Err(InstructionParseError::InvalidOpCode(toks[0].clone()));
        },
    };
    let shape = opcode_shape(op);
    let expected = arity_of(shape);
    if toks.len() != expected {
        return Err(InstructionParseError::ArityMismatch(expected, toks.len()));
    }
    match shape {
        OperandShape::NoOperands => Ok(Instruction::Nop),
        OperandShape::Immediate => match parse_numeric(toks[1].as_str()) {
            None => Err(InstructionParseError::InvalidOperand(toks[1].clone())),
            Some(v) => Ok(
                if op == 0x10 {
                    Instruction::Push(v)
                } else {
                    Instruction::Signal(v)
                },
            ),
        },
        OperandShape::OneRegister => match parse_register(toks[1].as_str()) {
            None => Err(InstructionParseError::InvalidOperand(toks[1].clone())),
            Some(r) => Ok(
                if op == 0x11 {
                    Instruction::Pop(r)
                } else if op == 0x12 {
                    Instruction::PushReg(r)
                } else {
                    Instruction::Not(r)
                },
            ),
        },
        OperandShape::TwoRegisters => {
            let r1 = match parse_register(toks[1].as_str()) {
                None => {
                    return Err(InstructionParseError::InvalidOperand(toks[1].clone()));
                },
                Some(r1) => r1,
            };
            let r2 = match parse_register(toks[2].as_str()) {
                None => {
                    return Err(InstructionParseError::InvalidOperand(toks[2].clone()));
                },
                Some(r2) => r2,
            };
            Ok(build_rr(op, r1, r2))
        },
        OperandShape::Offset => match parse_label_in(pairs, toks[1].as_str()) {
            Some(b) => {
                let o = crate::op::byte_to_i8(b);
                Ok(
                    if op == 0x30 {
                        Instruction::Jmp(o)
                    } else if op == 0x31 {
                        Instruction::Je(o)
                    } else {
                        Instruction::Jne(o)
                    },
                )
            },
            None => {
                let t = &toks[1];
                if t.as_str().unicode_len() > 0 && t.as_str().get_char(0) == '^' {
                    Err(InstructionParseError::UnresolvedLabel(t.clone()))
                } else {
                    Err(InstructionParseError::InvalidOperand(t.clone()))
                }
            },
        },
    }
}

/// Exec counterpart of [`build_two_registers`].
fn build_rr(op: u8, r1: Register, r2: Register) -> (i: Instruction)
    ensures
        i == build_two_registers(op, r1, r2),
{
    if op == 0x13 {
        Instruction::Load(r1, r2)
    } else if op == 0x14 {
        Instruction::Store(r1, r2)
    } else if op == 0x15 {
        Instruction::Mov(r1, r2)
    } else if op == 0x20 {
        Instruction::Add(r1, r2)
    } else if op == 0x21 {
        Instruction::Sub(r1, r2)
    } else if op == 0x22 {
        Instruction::Mul(r1, r2)
    } else if op == 0x23 {
        Instruction::Div(r1, r2)
    } else if op == 0x24 {
        Instruction::Shl(r1, r2)
    } else if op == 0x25 {
        Instruction::Shr(r1, r2)
    } else if op == 0x26 {
        Instruction::And(r1, r2)
    } else if op == 0x27 {
        Instruction::Or(r1, r2)
    } else if op == 0x28 {
        Instruction::Xor(r1, r2)
    } else {
        Instruction::Cmp(r1, r2)
    }
}

} // verus!
