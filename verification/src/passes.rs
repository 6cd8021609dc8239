//! The passes that run over the source lines before per-line parsing:
//! comment stripping and the label pre-pass.
//!
//! A label-definition line is a line whose trimmed text is one token ending
//! in `:`. Its address is twice the number of instruction-bearing lines
//! before it: label lines and blank lines occupy no bytes in the output.

use vstd::prelude::*;

use crate::parsing::{JamParseError, tokens_of};

verus! {

/// The line `s` truncated at its first `;`.
pub open spec fn comment_stripped(s: Seq<char>) -> Seq<char>
    decreases s.len(),
{
    if s.len() == 0 {
        s
    } else if s[0] == ';' {
        Seq::empty()
    } else {
        seq![s[0]] + comment_stripped(s.drop_first())
    }
}

/// Truncating at the first `;` is taking the prefix before it.
proof fn lemma_comment_take(s: Seq<char>, k: int)
    requires
        0 <= k <= s.len(),
        forall|j: int| 0 <= j < k ==> s[j] != ';',
        k == s.len() || s[k] == ';',
    ensures
        comment_stripped(s) == s.take(k),
    decreases k,
{
    if s.len() == 0 {
        assert(s.take(k) =~= s);
    } else if k == 0 {
        assert(s.take(0) =~= Seq::<char>::empty());
    } else {
        lemma_comment_take(s.drop_first(), k - 1);
        assert(seq![s[0]] + s.drop_first().take(k - 1) =~= s.take(k));
    }
}

/// Strip the comment from a line: everything from the first `;` on is
/// dropped, and a line that becomes empty (or already was) yields `None`.
pub fn remove_comments_pass(text: &str) -> (r: Option<String>)
    ensures
        match r {
            None => comment_stripped(text@).len() == 0,
            Some(out) => out@ == comment_stripped(text@) && out@.len() > 0,
        },
{
    let n = text.unicode_len();
    let mut k: usize = 0;
    while k < n && text.get_char(k) != ';'
        invariant
            0 <= k <= n,
            n == text@.len(),
            forall|j: int| 0 <= j < k ==> text@[j] != ';',
        decreases n - k,
    {
        k = k + 1;
    }
    proof {
        lemma_comment_take(text@, k as int);
    }
    if k == 0 {
        None
    } else {
        let out = text.substring_char(0, k).to_owned();
        proof {
            assert(out@ =~= text@.take(k as int));
        }
        Some(out)
    }
}

/// Whether `line` is a label-definition line: after comment stripping and
/// trimming it is a single token that ends in `:`.
pub open spec fn is_label_line(line: Seq<char>) -> bool {
    let toks = tokens_of(comment_stripped(line));
    toks.len() == 1 && toks[0].len() > 0 && toks[0].last() == ':'
}

/// The name a label-definition line declares: its token without the final
/// `:`.
pub open spec fn label_name(line: Seq<char>) -> Seq<char> {
    let t = tokens_of(comment_stripped(line))[0];
    t.take(t.len() - 1)
}

/// Whether `line` assembles to an instruction word: it has tokens after
/// comment stripping and is not a label definition.
pub open spec fn is_instr_line(line: Seq<char>) -> bool {
    tokens_of(comment_stripped(line)).len() > 0 && !is_label_line(line)
}

/// How many instruction-bearing lines stand before index `i`; twice this
/// is the byte address a label defined at line `i` resolves to.
pub open spec fn instr_lines_before(lines: Seq<Seq<char>>, i: int) -> int
    decreases i,
{
    if i <= 0 {
        0
    } else {
        instr_lines_before(lines, i - 1) + if is_instr_line(lines[i - 1]) {
            1int
        } else {
            0int
        }
    }
}

/// The label table after the first `k` lines: each label-definition line
/// maps its name to twice the count of instruction lines before it, and a
/// later definition of the same name replaces the earlier one.
pub open spec fn spec_labels_upto(lines: Seq<Seq<char>>, k: int) -> Map<Seq<char>, u8>
    decreases k,
{
    if k <= 0 {
        Map::empty()
    } else {
        let m = spec_labels_upto(lines, k - 1);
        if is_label_line(lines[k - 1]) {
            m.insert(label_name(lines[k - 1]), (2 * instr_lines_before(lines, k - 1)) as u8)
        } else {
            m
        }
    }
}

/// Whether every label of the first `k` lines resolves to an address that
/// fits in an offset byte.
pub open spec fn labels_fit(lines: Seq<Seq<char>>, k: int) -> bool {
    forall|j: int|
        0 <= j < k && is_label_line(lines[j]) ==> 2 * instr_lines_before(lines, j) <= 255
}

/// If the tokens of a line form a label definition, return its name.
pub fn label_token(toks: &Vec<String>) -> (r: Option<String>)
    ensures
        ({
            let t = toks.deep_view();
            match r {
                Some(name) => t.len() == 1 && t[0].len() > 0 && t[0].last() == ':' && name@ == t[0]
                    .take(t[0].len() - 1),
                None => !(t.len() == 1 && t[0].len() > 0 && t[0].last() == ':'),
            }
        }),
{
    if toks.len() != 1 {
        return None;
    }
    let t = toks[0].as_str();
    let n = t.unicode_len();
    if n == 0 {
        return None;
    }
    if t.get_char(n - 1) == ':' {
        let name = t.substring_char(0, n - 1).to_owned();
        proof {
            assert(name@ =~= toks.deep_view()[0].take(toks.deep_view()[0].len() - 1));
        }
        Some(name)
    } else {
        None
    }
}

/// The label pre-pass: scan all lines and build the label table.
///
/// Each label-definition line resolves to twice the number of instruction
/// lines before it; comment-only, blank and label lines occupy no bytes. A
/// label whose address does not fit in a byte is reported as an invalid
/// operand with its 1-based line number.
pub fn collect_labels(lines: &Vec<String>) -> (r: Result<Vec<(String, u8)>, JamParseError>)
    ensures
        ({
            let ls = lines.deep_view();
            match r {
                Ok(table) => crate::parsing::label_map(table@) == spec_labels_upto(
                    ls,
                    ls.len() as int,
                ) && labels_fit(ls, ls.len() as int),
                Err(e) => match e {
                    JamParseError::InvalidOperand(name, ln) => 0 < ln <= ls.len() && is_label_line(
                        ls[ln - 1],
                    ) && 2 * instr_lines_before(ls, ln - 1) > 255 && name@ == label_name(
                        ls[ln - 1],
                    ) && labels_fit(ls, ln - 1),
                    _ => false,
                },
            }
        }),
{
    let ghost ls = lines.deep_view();
    let mut table: Vec<(String, u8)> = Vec::new();
    let mut count: usize = 0;
    let mut i: usize = 0;
    proof {
        assert(crate::parsing::label_map(table@) =~= spec_labels_upto(ls, 0));
    }
    while i < lines.len()
        invariant
            0 <= i <= lines.len(),
            ls == lines.deep_view(),
            ls.len() == lines.len(),
            count == instr_lines_before(ls, i as int),
            count <= i,
            crate::parsing::label_map(table@) == spec_labels_upto(ls, i as int),
            labels_fit(ls, i as int),
        decreases lines.len() - i,
    {
        let stripped = remove_comments_pass(lines[i].as_str());
        match stripped {
            None => {
                proof {
                    assert(tokens_of(comment_stripped(ls[i as int])).len() == 0);
                    assert(!is_label_line(ls[i as int]) && !is_instr_line(ls[i as int]));
                }
            },
            Some(body) => {
                let toks = crate::parsing::tokenize(body.as_str());
                match label_token(&toks) {
                    Some(name) => {
                        proof {
                            assert(is_label_line(ls[i as int]));
                            assert(name@ == label_name(ls[i as int]));
                        }
                        if count > 127 {
                            return Err(JamParseError::InvalidOperand(name, i + 1));
                        }
                        let ghost table0 = table@;
                        table.push((name, (2 * count) as u8));
                        proof {
                            assert(table@.drop_last() =~= table0);
                        }
                    },
                    None => {
                        if toks.len() > 0 {
                            proof {
                                assert(is_instr_line(ls[i as int]));
                            }
                            count = count + 1;
                        } else {
                            proof {
                                assert(!is_label_line(ls[i as int]) && !is_instr_line(
                                    ls[i as int],
                                ));
                            }
                        }
                    },
                }
            },
        }
        i = i + 1;
    }
    Ok(table)
}

} // verus!
