//! The disassembler: a byte stream in, one rendered instruction per word
//! out.
//!
//! The stream is consumed two bytes at a time as little-endian words; a
//! trailing unpaired byte is a fatal [`VmError::IncompleteInstruction`],
//! never a silent truncation.

use vstd::prelude::*;

use crate::assembler::flat_encode;
use crate::mnemonics::{render_instruction, spec_render};
use crate::op::{Instruction, decode_spec};
use crate::vm::VmError;

verus! {

/// The instructions a byte stream decodes to: each 16-bit little-endian
/// word through the instruction table, an unknown opcode or a trailing
/// unpaired byte stopping the stream with an error.
pub open spec fn spec_decode_stream(bytes: Seq<u8>) -> Result<Seq<Instruction>, VmError>
    decreases bytes.len(),
{
    if bytes.len() == 0 {
        Ok(Seq::empty())
    } else if bytes.len() == 1 {
        Err(VmError::IncompleteInstruction)
    } else {
        let w = (bytes[0] + bytes[1] * 256) as u16;
        match decode_spec(w) {
            None => Err(VmError::UnknownOpcode(bytes[0])),
            Some(i) => match spec_decode_stream(bytes.skip(2)) {
                Ok(rest) => Ok(seq![i] + rest),
                Err(e) => Err(e),
            },
        }
    }
}

/// A stream of odd length never decodes: it ends in
/// `IncompleteInstruction` or stops earlier on an unknown opcode.
pub proof fn lemma_odd_stream(bytes: Seq<u8>)
    requires
        bytes.len() % 2 == 1,
    ensures
        spec_decode_stream(bytes) is Err,
    decreases bytes.len(),
{
    if bytes.len() > 1 {
        lemma_odd_stream(bytes.skip(2));
    }
}

/// Decode a byte stream into instructions.
pub fn decode_stream(bytes: &[u8]) -> (r: Result<Vec<Instruction>, VmError>)
    ensures
        match r {
            Ok(is) => spec_decode_stream(bytes@) == Ok::<Seq<Instruction>, VmError>(is@),
            Err(e) => spec_decode_stream(bytes@) == Err::<Seq<Instruction>, VmError>(e),
        },
{
    let n = bytes.len();
    let mut out: Vec<Instruction> = Vec::new();
    let mut i: usize = 0;
    proof {
        assert(bytes@.skip(0) =~= bytes@);
        assert(out@ =~= Seq::<Instruction>::empty());
    }
    while i + 1 < n
        invariant
            0 <= i <= n,
            i % 2 == 0,
            n == bytes@.len(),
            spec_decode_stream(bytes@) == (match spec_decode_stream(bytes@.skip(i as int)) {
                Ok(rest) => Ok::<Seq<Instruction>, VmError>(out@ + rest),
                Err(e) => Err::<Seq<Instruction>, VmError>(e),
            }),
        decreases n - i,
    {
        let w: u16 = bytes[i] as u16 + (bytes[i + 1] as u16) * 256;
        proof {
            assert(bytes@.skip(i as int)[0] == bytes@[i as int]);
            assert(bytes@.skip(i as int)[1] == bytes@[i as int + 1]);
            assert(bytes@.skip(i as int).skip(2) =~= bytes@.skip(i as int + 2));
        }
        match Instruction::try_from_u16(w) {
            Ok(ins) => {
                let ghost out0 = out@;
                out.push(ins);
                proof {
                    assert forall|rest: Seq<Instruction>| out0 + (seq![ins] + rest) == out@
                        + rest by {
                        assert(out0 + (seq![ins] + rest) =~= out@ + rest);
                    }
                }
            },
            Err(op) => {
                proof {
                    assert((w as int) % 256 == bytes@[i as int]) by (nonlinear_arith)
                        requires
                            w == bytes@[i as int] + bytes@[i as int + 1] * 256,
                            0 <= bytes@[i as int] < 256,
                            0 <= bytes@[i as int + 1] < 256,
                    ;
                }
                return Err(VmError::UnknownOpcode(op));
            },
        }
        i = i + 2;
    }
    if i < n {
        proof {
            assert(bytes@.skip(i as int).len() == 1);
        }
        return Err(VmError::IncompleteInstruction);
    }
    proof {
        assert(bytes@.skip(n as int) =~= Seq::<u8>::empty());
        assert(out@ + Seq::<Instruction>::empty() =~= out@);
    }
    Ok(out)
}

/// Disassemble a byte stream: decode every word and render each
/// instruction in its canonical text form, one line per instruction.
pub fn disassemble(bytes: &[u8]) -> (r: Result<Vec<String>, VmError>)
    ensures
        match r {
            Ok(lines) => spec_decode_stream(bytes@) matches Ok(is) && lines.deep_view()
                == is.map_values(|i: Instruction| spec_render(i)),
            Err(e) => spec_decode_stream(bytes@) == Err::<Seq<Instruction>, VmError>(e),
        },
{
    let is = match decode_stream(bytes) {
        Ok(is) => is,
        Err(e) => {
            return Err(e);
        },
    };
    let mut lines: Vec<String> = Vec::new();
    let mut i: usize = 0;
    while i < is.len()
        invariant
            0 <= i <= is@.len(),
            lines.deep_view().len() == i,
            forall|j: int| 0 <= j < i ==> lines.deep_view()[j] == spec_render(is@[j]),
        decreases is@.len() - i,
    {
        let ghost l0 = lines.deep_view();
        let s = render_instruction(&is[i]);
        lines.push(s);
        proof {
            assert(lines.deep_view() =~= l0.push(s@));
        }
        i = i + 1;
    }
    proof {
        assert(lines.deep_view() =~= is@.map_values(|i: Instruction| spec_render(i)));
    }
    Ok(lines)
}

/// Round trip of a whole program through the byte stream: decoding the
/// flat encoding of any instruction sequence yields the sequence back.
/// Together with the per-word round trip this is the agreement of the
/// assembler and the disassembler.
pub proof fn lemma_assemble_disassemble(is: Seq<Instruction>)
    ensures
        spec_decode_stream(flat_encode(is)) == Ok::<Seq<Instruction>, VmError>(is),
    decreases is.len(),
{
    if is.len() == 0 {
        assert(is =~= Seq::<Instruction>::empty());
        assert(flat_encode(is) =~= Seq::<u8>::empty());
    } else {
        let bytes = flat_encode(is);
        let first = is[0];
        let w = first.encode_spec();
        assert(bytes[0] == crate::memory::word_lo(w));
        assert(bytes[1] == crate::memory::word_hi(w));
        crate::memory::lemma_word_roundtrip(w);
        assert((bytes[0] + bytes[1] * 256) as u16 == w);
        crate::op::lemma_decode_encode(first);
        assert(bytes.skip(2) =~= flat_encode(is.drop_first()));
        lemma_assemble_disassemble(is.drop_first());
        assert(bytes.len() >= 2);
        assert(spec_decode_stream(bytes) == Ok::<Seq<Instruction>, VmError>(
            seq![first] + is.drop_first(),
        ));
        assert(seq![first] + is.drop_first() =~= is);
    }
}

/// What the assembler emits, the disassembler reads back: a successfully
/// assembled program decodes to exactly the instructions the source lines
/// denote, label references already resolved to literal offsets.
pub proof fn lemma_program_roundtrip(labels: Map<Seq<char>, u8>, lines: Seq<Seq<char>>)
    requires
        crate::assembler::spec_program(labels, lines) is Ok,
    ensures
        spec_decode_stream(
            flat_encode(crate::assembler::spec_program(labels, lines)->Ok_0),
        ) == Ok::<Seq<Instruction>, VmError>(crate::assembler::spec_program(labels, lines)->Ok_0),
{
    lemma_assemble_disassemble(crate::assembler::spec_program(labels, lines)->Ok_0);
}

} // verus!
