//! The assembler: source lines in, byte stream out.
//!
//! Each line is stripped of its comment, tokenized, and parsed against the
//! instruction table and the label table; the encoded words enter the
//! output low byte first. Assembly fails on the first invalid line,
//! reporting its 1-based number.

use vstd::prelude::*;

use crate::helpers::split_u16;
use crate::memory::{word_hi, word_lo};
use crate::op::Instruction;
use crate::parsing::{
    InstructionParseError, JamParseError, ParseOutcome, label_map, parse_instruction_tokens,
    parse_label_in, spec_parse_instr, tokenize, tokens_of,
};
use crate::passes::{comment_stripped, is_label_line, remove_comments_pass};

verus! {

/// What one source line contributes: the outcome of parsing its tokens
/// after comment stripping.
pub open spec fn spec_line_outcome(labels: Map<Seq<char>, u8>, line: Seq<char>) -> ParseOutcome {
    spec_parse_instr(labels, tokens_of(comment_stripped(line)))
}

/// The instruction sequence a program assembles to, from line `i` on:
/// blank, comment-only and label-definition lines contribute nothing, and
/// the first failing line stops assembly with its outcome and its 1-based
/// number.
pub open spec fn spec_program_from(
    labels: Map<Seq<char>, u8>,
    lines: Seq<Seq<char>>,
    i: int,
) -> Result<Seq<Instruction>, (ParseOutcome, int)>
    decreases lines.len() - i,
{
    if i < 0 || i >= lines.len() {
        Ok(Seq::empty())
    } else {
        let out = spec_line_outcome(labels, lines[i]);
        if is_label_line(lines[i]) || out == ParseOutcome::Empty {
            spec_program_from(labels, lines, i + 1)
        } else {
            match out {
                ParseOutcome::Instr(ins) => match spec_program_from(labels, lines, i + 1) {
                    Ok(rest) => Ok(seq![ins] + rest),
                    Err(e) => Err(e),
                },
                _ => Err((out, i + 1)),
            }
        }
    }
}

/// The instruction sequence a whole program assembles to.
pub open spec fn spec_program(labels: Map<Seq<char>, u8>, lines: Seq<Seq<char>>) -> Result<
    Seq<Instruction>,
    (ParseOutcome, int),
> {
    spec_program_from(labels, lines, 0)
}

/// The byte stream of an instruction sequence: each word split into its
/// low byte then its high byte.
pub open spec fn flat_encode(is: Seq<Instruction>) -> Seq<u8>
    decreases is.len(),
{
    if is.len() == 0 {
        Seq::empty()
    } else {
        seq![word_lo(is[0].encode_spec()), word_hi(is[0].encode_spec())] + flat_encode(
            is.drop_first(),
        )
    }
}

/// Appending one instruction appends its two bytes.
pub proof fn lemma_flat_encode_push(is: Seq<Instruction>, i: Instruction)
    ensures
        flat_encode(is.push(i)) == flat_encode(is) + seq![
            word_lo(i.encode_spec()),
            word_hi(i.encode_spec()),
        ],
    decreases is.len(),
{
    if is.len() == 0 {
        assert(is.push(i).drop_first() =~= Seq::<Instruction>::empty());
        assert(is.push(i)[0] == i);
        assert(is.push(i).len() == 1);
        assert(flat_encode(is.push(i)) == seq![
            word_lo(is.push(i)[0].encode_spec()),
            word_hi(is.push(i)[0].encode_spec()),
        ] + flat_encode(is.push(i).drop_first()));
        assert(flat_encode(Seq::<Instruction>::empty()) =~= Seq::<u8>::empty());
        assert(flat_encode(is.push(i)) =~= flat_encode(is) + seq![
            word_lo(i.encode_spec()),
            word_hi(i.encode_spec()),
        ]);
    } else {
        assert(is.push(i).drop_first() =~= is.drop_first().push(i));
        assert(is.push(i)[0] == is[0]);
        lemma_flat_encode_push(is.drop_first(), i);
        assert(flat_encode(is.push(i)) =~= flat_encode(is) + seq![
            word_lo(i.encode_spec()),
            word_hi(i.encode_spec()),
        ]);
    }
}

/// Whether the line-numbered error `e` reports the outcome `out` at the
/// 1-based line `ln`.
pub open spec fn jam_reports(e: JamParseError, out: ParseOutcome, ln: int) -> bool {
    match e {
        JamParseError::InvalidOpCode(t, m) => m == ln && out == ParseOutcome::BadName(t@),
        JamParseError::ArityMismatch(a, b, m) => m == ln && out == ParseOutcome::BadArity(
            a as int,
            b as int,
        ),
        JamParseError::InvalidOperand(t, m) => m == ln && out == ParseOutcome::BadOperand(t@),
        JamParseError::UnresolvedLabel(t, m) => m == ln && out == ParseOutcome::BadLabel(t@),
        JamParseError::Empty(_) => false,
    }
}

/// Whether parsing one line reported the right word or the right failure.
/// A label-definition line and a blank line yield `Empty` with the line's
/// number; every other error carries the outcome that produced it.
pub open spec fn line_reports(
    r: Result<u16, JamParseError>,
    labels: Map<Seq<char>, u8>,
    line: Seq<char>,
    ln: int,
) -> bool {
    let out = spec_line_outcome(labels, line);
    match r {
        Ok(w) => !is_label_line(line) && (out matches ParseOutcome::Instr(i) && w
            == i.encode_spec()),
        Err(JamParseError::Empty(m)) => m == ln && (is_label_line(line) || out
            == ParseOutcome::Empty),
        Err(e) => !is_label_line(line) && jam_reports(e, out, ln),
    }
}

/// The assembler: a label table built by the pre-pass, the source lines,
/// and the byte stream being emitted.
pub struct Assembler {
    /// The bytes emitted so far.
    pub output: Vec<u8>,
    /// The label table built by the pre-pass.
    pub labels: Vec<(String, u8)>,
    /// The source lines to assemble.
    pub lines: Vec<String>,
}

impl Assembler {
    /// The label table this assembler resolves `^name` references against.
    pub closed spec fn labels_map(&self) -> Map<Seq<char>, u8> {
        label_map(self.labels@)
    }

    /// The source lines this assembler holds.
    pub closed spec fn lines_view(&self) -> Seq<Seq<char>> {
        self.lines.deep_view()
    }

    /// An assembler over the given label table and source lines, with an
    /// empty output.
    pub fn new(labels: Vec<(String, u8)>, lines: Vec<String>) -> (a: Assembler)
        ensures
            a.labels_map() == label_map(labels@),
            a.lines_view() == lines.deep_view(),
            a.output@ == Seq::<u8>::empty(),
    {
        Assembler { output: Vec::new(), labels, lines }
    }

    /// Resolve an offset operand: a numeral, or a `^name` looked up in the
    /// label table.
    pub fn parse_label(&self, s: &str) -> (r: Option<u8>)
        ensures
            r == crate::parsing::spec_parse_label(self.labels_map(), s@),
    {
        parse_label_in(&self.labels, s)
    }

    /// Parse one line's tokens into an instruction.
    pub fn handle_line(&self, parts: &Vec<String>) -> (r: Result<Instruction, InstructionParseError>)
        ensures
            crate::parsing::reports(r, spec_parse_instr(self.labels_map(), parts.deep_view())),
    {
        parse_instruction_tokens(&self.labels, parts)
    }

    /// Parse one source line into its instruction word. A blank or
    /// comment-only line, and a label definition, yield `Empty` with the
    /// line's number; failures carry `line_number` too.
    pub fn parse_line(&self, text: String, line_number: usize) -> (r: Result<u16, JamParseError>)
        ensures
            line_reports(r, self.labels_map(), text@, line_number as int),
    {
        let stripped = match remove_comments_pass(text.as_str()) {
            None => {
                proof {
                    assert(tokens_of(comment_stripped(text@)).len() == 0);
                }
                return Err(JamParseError::Empty(line_number));
            },
            Some(s) => s,
        };
        let toks = tokenize(stripped.as_str());
        match crate::passes::label_token(&toks) {
            Some(_) => {
                proof {
                    assert(is_label_line(text@));
                }
                Err(JamParseError::Empty(line_number))
            },
            None => {
                proof {
                    assert(!is_label_line(text@));
                }
                match self.handle_line(&toks) {
                    Ok(i) => Ok(i.encode_u16()),
                    Err(e) => Err(attach_line(e, line_number)),
                }
            },
        }
    }

    /// Assemble a whole program: every line contributes its word's two
    /// bytes (low byte first) or is skipped as blank or label-defining, and
    /// the first invalid line stops assembly with its 1-based number.
    pub fn parse_vec(&self, input: &Vec<String>) -> (r: Result<Vec<u8>, JamParseError>)
        ensures
            ({
                let prog = spec_program(self.labels_map(), input.deep_view());
                match r {
                    Ok(bytes) => prog matches Ok(is) && bytes@ == flat_encode(is),
                    Err(e) => prog matches Err((out, ln)) && jam_reports(e, out, ln),
                }
            }),
    {
        let ghost ls = input.deep_view();
        let ghost labels = self.labels_map();
        let mut out: Vec<u8> = Vec::new();
        let ghost mut prog: Seq<Instruction> = Seq::empty();
        let mut i: usize = 0;
        proof {
            assert(out@ =~= flat_encode(prog));
        }
        while i < input.len()
            invariant
                0 <= i <= input.len(),
                ls == input.deep_view(),
                ls.len() == input.len(),
                labels == self.labels_map(),
                out@ == flat_encode(prog),
                spec_program_from(labels, ls, 0) == (match spec_program_from(labels, ls, i as int) {
                    Ok(rest) => Ok::<Seq<Instruction>, (ParseOutcome, int)>(prog + rest),
                    Err(e) => Err(e),
                }),
            decreases input.len() - i,
        {
            let line = input[i].clone();
            match self.parse_line(line, i + 1) {
                Ok(w) => {
                    let (lo, hi) = split_u16(w);
                    let ghost prog0 = prog;
                    let ghost ins = spec_line_outcome(labels, ls[i as int])->Instr_0;
                    proof {
                        prog = prog0.push(ins);
                        lemma_flat_encode_push(prog0, ins);
                    }
                    out.push(lo);
                    out.push(hi);
                    proof {
                        assert(out@ =~= flat_encode(prog));
                        assert(ls[i as int] == line@);
                        assert forall|rest: Seq<Instruction>| prog0 + (seq![ins] + rest) == prog
                            + rest by {
                            assert(prog0 + (seq![ins] + rest) =~= prog + rest);
                        }
                    }
                },
                Err(JamParseError::Empty(_)) => {},
                Err(e) => {
                    return Err(e);
                },
            }
            i = i + 1;
        }
        proof {
            assert(spec_program_from(labels, ls, ls.len() as int) == Ok::<
                Seq<Instruction>,
                (ParseOutcome, int),
            >(Seq::empty()));
            assert(prog + Seq::<Instruction>::empty() =~= prog);
        }
        Ok(out)
    }

    /// Assemble the lines this assembler holds, appending the bytes to its
    /// output.
    pub fn parse_input(&mut self) -> (r: Result<(), JamParseError>)
        ensures
            final(self).labels_map() == old(self).labels_map(),
            final(self).lines_view() == old(self).lines_view(),
            ({
                let prog = spec_program(old(self).labels_map(), old(self).lines_view());
                match r {
                    Ok(()) => prog matches Ok(is) && final(self).output@ == old(self).output@
                        + flat_encode(is),
                    Err(e) => prog matches Err((out, ln)) && jam_reports(e, out, ln),
                }
            }),
    {
        match self.parse_vec(&self.lines) {
            Ok(mut bytes) => {
                self.output.append(&mut bytes);
                Ok(())
            },
            Err(e) => Err(e),
        }
    }
}

/// Whether a line assembles cleanly or contributes nothing: a label
/// definition, a line without tokens, or a line that parses to an
/// instruction.
pub open spec fn line_benign(labels: Map<Seq<char>, u8>, line: Seq<char>) -> bool {
    is_label_line(line) || spec_line_outcome(labels, line) == ParseOutcome::Empty
        || spec_line_outcome(labels, line) matches ParseOutcome::Instr(_)
}

/// A program whose remaining lines are all benign assembles.
proof fn lemma_program_ok(labels: Map<Seq<char>, u8>, ls: Seq<Seq<char>>, i: int)
    requires
        0 <= i,
        forall|j: int| i <= j < ls.len() ==> line_benign(labels, ls[j]),
    ensures
        spec_program_from(labels, ls, i) is Ok,
    decreases ls.len() - i,
{
    if i < ls.len() {
        lemma_program_ok(labels, ls, i + 1);
    }
}

/// A program whose first non-benign line is `k` fails to assemble.
proof fn lemma_program_err(labels: Map<Seq<char>, u8>, ls: Seq<Seq<char>>, i: int, k: int)
    requires
        0 <= i <= k < ls.len(),
        forall|j: int| i <= j < k ==> line_benign(labels, ls[j]),
        !line_benign(labels, ls[k]),
    ensures
        spec_program_from(labels, ls, i) is Err,
    decreases k - i,
{
    if i < k {
        lemma_program_err(labels, ls, i + 1, k);
    }
}

/// Validate one line against a label table: a label definition and a line
/// that parses are fine, a token-less line reports the benign `Empty`, and
/// every failure carries `index` as its line number.
fn check_line(labels: &Vec<(String, u8)>, line: &str, index: usize) -> (r: Result<
    (),
    JamParseError,
>)
    ensures
        ({
            let out = spec_line_outcome(label_map(labels@), line@);
            match r {
                Ok(()) => is_label_line(line@) || out matches ParseOutcome::Instr(_),
                Err(JamParseError::Empty(m)) => m == index && !is_label_line(line@) && out
                    == ParseOutcome::Empty,
                Err(e) => !is_label_line(line@) && jam_reports(e, out, index as int),
            }
        }),
{
    match remove_comments_pass(line) {
        None => {
            proof {
                assert(tokens_of(comment_stripped(line@)).len() == 0);
            }
            Err(JamParseError::Empty(index))
        },
        Some(body) => {
            let toks = tokenize(body.as_str());
            match crate::passes::label_token(&toks) {
                Some(_) => {
                    proof {
                        assert(is_label_line(line@));
                    }
                    Ok(())
                },
                None => {
                    proof {
                        assert(!is_label_line(line@));
                    }
                    match parse_instruction_tokens(labels, &toks) {
                        Ok(_) => Ok(()),
                        Err(e) => Err(attach_line(e, index)),
                    }
                },
            }
        },
    }
}

/// Validate one line on its own, with no labels in scope, as the
/// interactive loop does with each line it is handed. `index` is the line
/// number reported on failure.
pub fn validate_line(line: &str, index: usize) -> (r: Result<(), JamParseError>)
    ensures
        ({
            let out = spec_line_outcome(Map::empty(), line@);
            match r {
                Ok(()) => is_label_line(line@) || out matches ParseOutcome::Instr(_),
                Err(JamParseError::Empty(m)) => m == index && !is_label_line(line@) && out
                    == ParseOutcome::Empty,
                Err(e) => !is_label_line(line@) && jam_reports(e, out, index as int),
            }
        }),
{
    let empty: Vec<(String, u8)> = Vec::new();
    proof {
        assert(label_map(empty@) =~= Map::<Seq<char>, u8>::empty());
    }
    check_line(&empty, line, index)
}

/// Validate a whole program: build the label table, then check every line
/// against it. Success means exactly that the program assembles — every
/// label fits in an offset byte and every line is blank, a label
/// definition, or a well-formed instruction. The first offending line is
/// reported with its 1-based number.
pub fn validate_jam(lines: &Vec<String>) -> (r: Result<(), JamParseError>)
    ensures
        ({
            let ls = lines.deep_view();
            let labels = crate::passes::spec_labels_upto(ls, ls.len() as int);
            match r {
                Ok(()) => crate::passes::labels_fit(ls, ls.len() as int) && spec_program(
                    labels,
                    ls,
                ) is Ok,
                Err(_) => !(crate::passes::labels_fit(ls, ls.len() as int) && spec_program(
                    labels,
                    ls,
                ) is Ok),
            }
        }),
{
    let ghost ls = lines.deep_view();
    let table = match crate::passes::collect_labels(lines) {
        Ok(t) => t,
        Err(e) => {
            return Err(e);
        },
    };
    let ghost labels = crate::passes::spec_labels_upto(ls, ls.len() as int);
    let mut i: usize = 0;
    while i < lines.len()
        invariant
            0 <= i <= lines.len(),
            ls == lines.deep_view(),
            ls.len() == lines.len(),
            labels == crate::passes::spec_labels_upto(ls, ls.len() as int),
            label_map(table@) == labels,
            forall|j: int| 0 <= j < i ==> line_benign(labels, ls[j]),
        decreases lines.len() - i,
    {
        proof {
            assert(ls[i as int] == lines@[i as int]@);
        }
        match check_line(&table, lines[i].as_str(), i + 1) {
            Ok(()) => (),
            Err(JamParseError::Empty(_)) => (),
            Err(e) => {
                proof {
                    lemma_program_err(labels, ls, 0, i as int);
                }
                return Err(e);
            },
        }
        i = i + 1;
    }
    proof {
        lemma_program_ok(labels, ls, 0);
    }
    Ok(())
}

/// Attach a 1-based line number to a parse failure. A token-less line
/// becomes the benign `Empty`.
fn attach_line(e: InstructionParseError, line_number: usize) -> (r: JamParseError)
    ensures
        ({
            match e {
                InstructionParseError::NoContent => r == JamParseError::Empty(line_number),
                InstructionParseError::InvalidOpCode(t) => r == (JamParseError::InvalidOpCode(
                    t,
                    line_number,
                )),
                InstructionParseError::ArityMismatch(a, b) => r == (JamParseError::ArityMismatch(
                    a,
                    b,
                    line_number,
                )),
                InstructionParseError::InvalidOperand(t) => r == (JamParseError::InvalidOperand(
                    t,
                    line_number,
                )),
                InstructionParseError::UnresolvedLabel(t) => r == (JamParseError::UnresolvedLabel(
                    t,
                    line_number,
                )),
            }
        }),
{
    match e {
        InstructionParseError::NoContent => JamParseError::Empty(line_number),
        InstructionParseError::InvalidOpCode(t) => JamParseError::InvalidOpCode(t, line_number),
        InstructionParseError::ArityMismatch(a, b) => JamParseError::ArityMismatch(
            a,
            b,
            line_number,
        ),
        InstructionParseError::InvalidOperand(t) => JamParseError::InvalidOperand(t, line_number),
        InstructionParseError::UnresolvedLabel(t) => JamParseError::UnresolvedLabel(t, line_number),
    }
}

} // verus!
