//! The register file: eight named 16-bit cells, and the condition flags that
//! live in the `FL` cell.

use vstd::prelude::*;

verus! {

/// Names of the eight 16-bit register cells of the machine.
///
/// `A`, `B`, `C` and `D` are general purpose; `SP` is the stack pointer,
/// `PC` the instruction pointer, `BP` is reserved for frame support and `FL`
/// holds the condition flags.
#[derive(Clone, Copy, PartialEq, Eq, Structural, Debug)]
pub enum Register {
    A,
    B,
    C,
    D,
    SP,
    PC,
    BP,
    FL,
}

/// Condition bits stored in the `FL` register.
///
/// `Compare` records an equality or zero result, `Negative` the sign of the
/// last result, and `Overflow` an arithmetic overflow of the last operation.
#[derive(Clone, Copy, PartialEq, Eq, Structural, Debug)]
pub enum Flag {
    Compare,
    Negative,
    Overflow,
}

impl Register {
    /// Index of this register in the register file, in the range `0..8`.
    pub open spec fn index_spec(self) -> usize {
        match self {
            Register::A => 0,
            Register::B => 1,
            Register::C => 2,
            Register::D => 3,
            Register::SP => 4,
            Register::PC => 5,
            Register::BP => 6,
            Register::FL => 7,
        }
    }

    /// Index of this register in the register file.
    #[verifier::when_used_as_spec(index_spec)]
    pub fn index(self) -> (i: usize)
        ensures
            i == self.index_spec(),
            i < 8,
    {
        match self {
            Register::A => 0,
            Register::B => 1,
            Register::C => 2,
            Register::D => 3,
            Register::SP => 4,
            Register::PC => 5,
            Register::BP => 6,
            Register::FL => 7,
        }
    }

    /// The register whose index is `v` modulo 8, the inverse of
    /// [`Register::index`] on the three low bits of an operand nibble.
    pub open spec fn from_u8_spec(v: u8) -> Register {
        let i = v % 8;
        if i == 0 {
            Register::A
        } else if i == 1 {
            Register::B
        } else if i == 2 {
            Register::C
        } else if i == 3 {
            Register::D
        } else if i == 4 {
            Register::SP
        } else if i == 5 {
            Register::PC
        } else if i == 6 {
            Register::BP
        } else {
            Register::FL
        }
    }

    /// The register whose index is `v` modulo 8.
    #[verifier::when_used_as_spec(from_u8_spec)]
    pub fn from_u8(v: u8) -> (r: Register)
        ensures
            r == Register::from_u8_spec(v),
    {
        let i = v % 8;
        if i == 0 {
            Register::A
        } else if i == 1 {
            Register::B
        } else if i == 2 {
            Register::C
        } else if i == 3 {
            Register::D
        } else if i == 4 {
            Register::SP
        } else if i == 5 {
            Register::PC
        } else if i == 6 {
            Register::BP
        } else {
            Register::FL
        }
    }
}

/// Decoding the index of a register yields that register back.
pub proof fn lemma_register_index_roundtrip(r: Register)
    ensures
        Register::from_u8_spec(r.index_spec() as u8) == r,
{
}

impl Flag {
    /// The bit this flag occupies in the `FL` register.
    pub open spec fn mask_spec(self) -> u16 {
        match self {
            Flag::Compare => 1,
            Flag::Negative => 2,
            Flag::Overflow => 4,
        }
    }

    /// The bit this flag occupies in the `FL` register.
    #[verifier::when_used_as_spec(mask_spec)]
    pub fn mask(self) -> (m: u16)
        ensures
            m == self.mask_spec(),
    {
        match self {
            Flag::Compare => 1,
            Flag::Negative => 2,
            Flag::Overflow => 4,
        }
    }
}

/// Whether `fl`, read as the contents of the `FL` register, has `f` set.
///
/// The three flags occupy the three low bits, so each can be tested with
/// plain division and remainder.
pub open spec fn flag_set(fl: u16, f: Flag) -> bool {
    match f {
        Flag::Compare => fl % 2 == 1,
        Flag::Negative => (fl / 2) % 2 == 1,
        Flag::Overflow => (fl / 4) % 2 == 1,
    }
}

} // verus!
