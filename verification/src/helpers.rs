//! Small helpers shared by the assembler and its callers.

use vstd::prelude::*;

use crate::memory::{word_hi, word_lo};
use crate::parsing::InstructionParseError;

verus! {

/// Check that a token list has exactly `n` entries, the arity the
/// instruction's operand shape demands.
pub fn assert_length(parts: &Vec<String>, n: usize) -> (r: Result<(), InstructionParseError>)
    ensures
        match r {
            Ok(()) => parts@.len() == n,
            Err(e) => parts@.len() != n && e == (InstructionParseError::ArityMismatch(
                n,
                parts@.len() as usize,
            )),
        },
{
    if parts.len() == n {
        Ok(())
    } else {
        Err(InstructionParseError::ArityMismatch(n, parts.len()))
    }
}

/// Split an instruction word into its low and high byte, the order in which
/// the bytes enter the output stream.
pub fn split_u16(dbyte: u16) -> (r: (u8, u8))
    ensures
        r.0 == word_lo(dbyte),
        r.1 == word_hi(dbyte),
{
    let lower = (dbyte % 256) as u8;
    let upper = (dbyte / 256) as u8;
    (lower, upper)
}

} // verus!
