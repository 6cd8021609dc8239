//! The instruction table: every instruction variant with its numeric opcode
//! and operand shape, and the packing of an instruction into its 16-bit
//! little-endian word.
//!
//! The encoding rule: the low byte of the word is the opcode; the high byte
//! holds the operands (an immediate byte, a signed offset byte, one register
//! index in bits 8 to 11, or two register indices in bits 8 to 11 and
//! 12 to 15).

use vstd::prelude::*;

use crate::register::Register;

verus! {

/// One machine instruction, the transient value produced by decoding a word
/// or by parsing a source line, and consumed by the encoder or the engine.
#[derive(Clone, Copy, PartialEq, Eq, Structural, Debug)]
pub enum Instruction {
    /// No effect beyond the program counter advance.
    Nop,
    /// Push an immediate byte (zero-extended to 16 bits) onto the stack.
    Push(u8),
    /// Pop the top of the stack into a register.
    Pop(Register),
    /// Push the value of a register onto the stack.
    PushReg(Register),
    /// Copy the second register into the first, flags untouched.
    Mov(Register, Register),
    /// Wrapping 16-bit addition of the second register into the first.
    Add(Register, Register),
    /// Wrapping 16-bit subtraction of the second register from the first.
    Sub(Register, Register),
    /// Wrapping 16-bit multiplication of the first register by the second.
    Mul(Register, Register),
    /// Unsigned division of the first register by the second.
    Div(Register, Register),
    /// Shift the first register left by the value of the second.
    Shl(Register, Register),
    /// Shift the first register right by the value of the second.
    Shr(Register, Register),
    /// Bitwise and of the second register into the first.
    And(Register, Register),
    /// Bitwise or of the second register into the first.
    Or(Register, Register),
    /// Bitwise exclusive or of the second register into the first.
    Xor(Register, Register),
    /// Bitwise complement of a register, in place.
    Not(Register),
    /// Compare two registers, setting only the condition flags.
    Cmp(Register, Register),
    /// Unconditional relative branch by a signed word offset.
    Jmp(i8),
    /// Branch if the `Compare` flag is set.
    Je(i8),
    /// Branch if the `Compare` flag is clear.
    Jne(i8),
    /// Read the word addressed by the second register into the first.
    Load(Register, Register),
    /// Write the first register to the address held in the second.
    Store(Register, Register),
    /// Invoke the host callback registered under an 8-bit signal id.
    Signal(u8),
}

/// The arity and kind of an instruction's operands.
#[derive(Clone, Copy, PartialEq, Eq, Structural, Debug)]
pub enum OperandShape {
    NoOperands,
    Immediate,
    OneRegister,
    TwoRegisters,
    Offset,
}

/// The unsigned byte that carries the same bits as `v`.
pub open spec fn i8_bits(v: i8) -> u8 {
    if v >= 0 {
        v as u8
    } else {
        (v + 256) as u8
    }
}

/// The signed byte that carries the same bits as `v`.
pub open spec fn u8_bits(v: u8) -> i8 {
    if v < 128 {
        v as i8
    } else {
        (v - 256) as i8
    }
}

/// Reading a signed byte back from its unsigned carrier yields it unchanged.
pub proof fn lemma_i8_bits_roundtrip(v: i8)
    ensures
        u8_bits(i8_bits(v)) == v,
{
}

/// Exec counterpart of [`i8_bits`].
pub fn i8_to_byte(v: i8) -> (b: u8)
    ensures
        b == i8_bits(v),
{
    if v >= 0 {
        v as u8
    } else {
        ((v as i16) + 256) as u8
    }
}

/// Exec counterpart of [`u8_bits`].
pub fn byte_to_i8(b: u8) -> (v: i8)
    ensures
        v == u8_bits(b),
{
    if b < 128 {
        b as i8
    } else {
        ((b as i16) - 256) as i8
    }
}

impl Instruction {
    /// The opcode of this instruction in the instruction table.
    pub open spec fn opcode_spec(self) -> u8 {
        match self {
            Instruction::Nop => 0x00,
            Instruction::Push(_) => 0x10,
            Instruction::Pop(_) => 0x11,
            Instruction::PushReg(_) => 0x12,
            Instruction::Load(_, _) => 0x13,
            Instruction::Store(_, _) => 0x14,
            Instruction::Mov(_, _) => 0x15,
            Instruction::Add(_, _) => 0x20,
            Instruction::Sub(_, _) => 0x21,
            Instruction::Mul(_, _) => 0x22,
            Instruction::Div(_, _) => 0x23,
            Instruction::Shl(_, _) => 0x24,
            Instruction::Shr(_, _) => 0x25,
            Instruction::And(_, _) => 0x26,
            Instruction::Or(_, _) => 0x27,
            Instruction::Xor(_, _) => 0x28,
            Instruction::Not(_) => 0x29,
            Instruction::Cmp(_, _) => 0x2A,
            Instruction::Jmp(_) => 0x30,
            Instruction::Je(_) => 0x31,
            Instruction::Jne(_) => 0x32,
            Instruction::Signal(_) => 0x40,
        }
    }

    /// The opcode of this instruction.
    pub fn opcode(&self) -> (op: u8)
        ensures
            op == self.opcode_spec(),
    {
        match self {
            Instruction::Nop => 0x00,
            Instruction::Push(_) => 0x10,
            Instruction::Pop(_) => 0x11,
            Instruction::PushReg(_) => 0x12,
            Instruction::Load(_, _) => 0x13,
            Instruction::Store(_, _) => 0x14,
            Instruction::Mov(_, _) => 0x15,
            Instruction::Add(_, _) => 0x20,
            Instruction::Sub(_, _) => 0x21,
            Instruction::Mul(_, _) => 0x22,
            Instruction::Div(_, _) => 0x23,
            Instruction::Shl(_, _) => 0x24,
            Instruction::Shr(_, _) => 0x25,
            Instruction::And(_, _) => 0x26,
            Instruction::Or(_, _) => 0x27,
            Instruction::Xor(_, _) => 0x28,
            Instruction::Not(_) => 0x29,
            Instruction::Cmp(_, _) => 0x2A,
            Instruction::Jmp(_) => 0x30,
            Instruction::Je(_) => 0x31,
            Instruction::Jne(_) => 0x32,
            Instruction::Signal(_) => 0x40,
        }
    }

    /// The operand shape of this instruction.
    pub open spec fn shape_spec(self) -> OperandShape {
        match self {
            Instruction::Nop => OperandShape::NoOperands,
            Instruction::Push(_) => OperandShape::Immediate,
            Instruction::Pop(_) => OperandShape::OneRegister,
            Instruction::PushReg(_) => OperandShape::OneRegister,
            Instruction::Load(_, _) => OperandShape::TwoRegisters,
            Instruction::Store(_, _) => OperandShape::TwoRegisters,
            Instruction::Mov(_, _) => OperandShape::TwoRegisters,
            Instruction::Add(_, _) => OperandShape::TwoRegisters,
            Instruction::Sub(_, _) => OperandShape::TwoRegisters,
            Instruction::Mul(_, _) => OperandShape::TwoRegisters,
            Instruction::Div(_, _) => OperandShape::TwoRegisters,
            Instruction::Shl(_, _) => OperandShape::TwoRegisters,
            Instruction::Shr(_, _) => OperandShape::TwoRegisters,
            Instruction::And(_, _) => OperandShape::TwoRegisters,
            Instruction::Or(_, _) => OperandShape::TwoRegisters,
            Instruction::Xor(_, _) => OperandShape::TwoRegisters,
            Instruction::Not(_) => OperandShape::OneRegister,
            Instruction::Cmp(_, _) => OperandShape::TwoRegisters,
            Instruction::Jmp(_) => OperandShape::Offset,
            Instruction::Je(_) => OperandShape::Offset,
            Instruction::Jne(_) => OperandShape::Offset,
            Instruction::Signal(_) => OperandShape::Immediate,
        }
    }

    /// The operand byte of this instruction: the high byte of its word.
    pub open spec fn hi_byte_spec(self) -> u8 {
        match self {
            Instruction::Nop => 0,
            Instruction::Push(v) => v,
            Instruction::Pop(r) => r.index_spec() as u8,
            Instruction::PushReg(r) => r.index_spec() as u8,
            Instruction::Load(r1, r2) => (r1.index_spec() + r2.index_spec() * 16) as u8,
            Instruction::Store(r1, r2) => (r1.index_spec() + r2.index_spec() * 16) as u8,
            Instruction::Mov(r1, r2) => (r1.index_spec() + r2.index_spec() * 16) as u8,
            Instruction::Add(r1, r2) => (r1.index_spec() + r2.index_spec() * 16) as u8,
            Instruction::Sub(r1, r2) => (r1.index_spec() + r2.index_spec() * 16) as u8,
            Instruction::Mul(r1, r2) => (r1.index_spec() + r2.index_spec() * 16) as u8,
            Instruction::Div(r1, r2) => (r1.index_spec() + r2.index_spec() * 16) as u8,
            Instruction::Shl(r1, r2) => (r1.index_spec() + r2.index_spec() * 16) as u8,
            Instruction::Shr(r1, r2) => (r1.index_spec() + r2.index_spec() * 16) as u8,
            Instruction::And(r1, r2) => (r1.index_spec() + r2.index_spec() * 16) as u8,
            Instruction::Or(r1, r2) => (r1.index_spec() + r2.index_spec() * 16) as u8,
            Instruction::Xor(r1, r2) => (r1.index_spec() + r2.index_spec() * 16) as u8,
            Instruction::Not(r) => r.index_spec() as u8,
            Instruction::Cmp(r1, r2) => (r1.index_spec() + r2.index_spec() * 16) as u8,
            Instruction::Jmp(o) => i8_bits(o),
            Instruction::Je(o) => i8_bits(o),
            Instruction::Jne(o) => i8_bits(o),
            Instruction::Signal(v) => v,
        }
    }

    /// The 16-bit word this instruction encodes to: opcode in the low byte,
    /// operand byte in the high byte.
    pub open spec fn encode_spec(self) -> u16 {
        (self.opcode_spec() + self.hi_byte_spec() * 256) as u16
    }

    /// The operand byte of this instruction.
    #[verifier::rlimit(50)]
    pub fn hi_byte(&self) -> (hi: u8)
        ensures
            hi == self.hi_byte_spec(),
    {
        match self {
            Instruction::Nop => 0,
            Instruction::Push(v) | Instruction::Signal(v) => *v,
            Instruction::Pop(r) | Instruction::PushReg(r) | Instruction::Not(r) => r.index()
                as u8,
            Instruction::Load(r1, r2) | Instruction::Store(r1, r2) | Instruction::Mov(r1, r2)
            | Instruction::Add(r1, r2) | Instruction::Sub(r1, r2) | Instruction::Mul(r1, r2)
            | Instruction::Div(r1, r2) | Instruction::Shl(r1, r2) | Instruction::Shr(r1, r2)
            | Instruction::And(r1, r2) | Instruction::Or(r1, r2) | Instruction::Xor(r1, r2)
            | Instruction::Cmp(r1, r2) => (r1.index() + r2.index() * 16) as u8,
            Instruction::Jmp(o) | Instruction::Je(o) | Instruction::Jne(o) => i8_to_byte(*o),
        }
    }

    /// Encode this instruction into its 16-bit word.
    pub fn encode_u16(&self) -> (w: u16)
        ensures
            w == self.encode_spec(),
    {
        let hi = self.hi_byte();
        self.opcode() as u16 + (hi as u16) * 256
    }
}

/// The register packed in bits 8 to 11 of a word whose high byte is `hi`.
pub open spec fn low_reg(hi: u8) -> Register {
    Register::from_u8_spec((hi % 16) as u8)
}

/// The register packed in bits 12 to 15 of a word whose high byte is `hi`.
pub open spec fn high_reg(hi: u8) -> Register {
    Register::from_u8_spec((hi / 16) as u8)
}

/// The instruction encoded by the word `w`, if its low byte is a known
/// opcode.
pub open spec fn decode_spec(w: u16) -> Option<Instruction> {
    let op = (w % 256) as u8;
    let hi = (w / 256) as u8;
    if op == 0x00 {
        Some(Instruction::Nop)
    } else if op == 0x10 {
        Some(Instruction::Push(hi))
    } else if op == 0x11 {
        Some(Instruction::Pop(low_reg(hi)))
    } else if op == 0x12 {
        Some(Instruction::PushReg(low_reg(hi)))
    } else if op == 0x13 {
        Some(Instruction::Load(low_reg(hi), high_reg(hi)))
    } else if op == 0x14 {
        Some(Instruction::Store(low_reg(hi), high_reg(hi)))
    } else if op == 0x15 {
        Some(Instruction::Mov(low_reg(hi), high_reg(hi)))
    } else if op == 0x20 {
        Some(Instruction::Add(low_reg(hi), high_reg(hi)))
    } else if op == 0x21 {
        Some(Instruction::Sub(low_reg(hi), high_reg(hi)))
    } else if op == 0x22 {
        Some(Instruction::Mul(low_reg(hi), high_reg(hi)))
    } else if op == 0x23 {
        Some(Instruction::Div(low_reg(hi), high_reg(hi)))
    } else if op == 0x24 {
        Some(Instruction::Shl(low_reg(hi), high_reg(hi)))
    } else if op == 0x25 {
        Some(Instruction::Shr(low_reg(hi), high_reg(hi)))
    } else if op == 0x26 {
        Some(Instruction::And(low_reg(hi), high_reg(hi)))
    } else if op == 0x27 {
        Some(Instruction::Or(low_reg(hi), high_reg(hi)))
    } else if op == 0x28 {
        Some(Instruction::Xor(low_reg(hi), high_reg(hi)))
    } else if op == 0x29 {
        Some(Instruction::Not(low_reg(hi)))
    } else if op == 0x2A {
        Some(Instruction::Cmp(low_reg(hi), high_reg(hi)))
    } else if op == 0x30 {
        Some(Instruction::Jmp(u8_bits(hi)))
    } else if op == 0x31 {
        Some(Instruction::Je(u8_bits(hi)))
    } else if op == 0x32 {
        Some(Instruction::Jne(u8_bits(hi)))
    } else if op == 0x40 {
        Some(Instruction::Signal(hi))
    } else {
        None
    }
}

impl Instruction {
    /// Decode the word `w`, or report its unknown opcode byte.
    pub fn try_from_u16(w: u16) -> (r: Result<Instruction, u8>)
        ensures
            match r {
                Ok(i) => decode_spec(w) == Some(i),
                Err(op) => decode_spec(w) is None && op == (w % 256) as u8,
            },
    {
        let op = (w % 256) as u8;
        let hi = (w / 256) as u8;
        let lo_r = Register::from_u8(hi % 16);
        let hi_r = Register::from_u8(hi / 16);
        match op {
            0x00 => Ok(Instruction::Nop),
            0x10 => Ok(Instruction::Push(hi)),
            0x11 => Ok(Instruction::Pop(lo_r)),
            0x12 => Ok(Instruction::PushReg(lo_r)),
            0x13 => Ok(Instruction::Load(lo_r, hi_r)),
            0x14 => Ok(Instruction::Store(lo_r, hi_r)),
            0x15 => Ok(Instruction::Mov(lo_r, hi_r)),
            0x20 => Ok(Instruction::Add(lo_r, hi_r)),
            0x21 => Ok(Instruction::Sub(lo_r, hi_r)),
            0x22 => Ok(Instruction::Mul(lo_r, hi_r)),
            0x23 => Ok(Instruction::Div(lo_r, hi_r)),
            0x24 => Ok(Instruction::Shl(lo_r, hi_r)),
            0x25 => Ok(Instruction::Shr(lo_r, hi_r)),
            0x26 => Ok(Instruction::And(lo_r, hi_r)),
            0x27 => Ok(Instruction::Or(lo_r, hi_r)),
            0x28 => Ok(Instruction::Xor(lo_r, hi_r)),
            0x29 => Ok(Instruction::Not(lo_r)),
            0x2A => Ok(Instruction::Cmp(lo_r, hi_r)),
            0x30 => Ok(Instruction::Jmp(byte_to_i8(hi))),
            0x31 => Ok(Instruction::Je(byte_to_i8(hi))),
            0x32 => Ok(Instruction::Jne(byte_to_i8(hi))),
            0x40 => Ok(Instruction::Signal(hi)),
            _ => Err(op),
        }
    }
}

/// The low and high byte of an instruction word determine it completely.
proof fn lemma_byte_split(a: int, b: int)
    by (nonlinear_arith)
    requires
        0 <= a < 256,
        0 <= b < 256,
    ensures
        (a + b * 256) % 256 == a,
        (a + b * 256) / 256 == b,
        0 <= a + b * 256 < 65536,
{
}

/// The two register indices packed into an operand byte come back out.
proof fn lemma_nibble_split(a: int, b: int)
    by (nonlinear_arith)
    requires
        0 <= a < 8,
        0 <= b < 8,
    ensures
        (a + b * 16) % 16 == a,
        (a + b * 16) / 16 == b,
        0 <= a + b * 16 < 256,
{
}

/// Round trip of the instruction encoding: decoding the word an instruction
/// encodes to yields that instruction, for every variant and every operand
/// combination.
pub proof fn lemma_decode_encode(i: Instruction)
    ensures
        decode_spec(i.encode_spec()) == Some(i),
{
    lemma_byte_split(i.opcode_spec() as int, i.hi_byte_spec() as int);
    match i {
        Instruction::Pop(r) | Instruction::PushReg(r) | Instruction::Not(r) => {
            lemma_nibble_split(r.index_spec() as int, 0);
            lemma_register_nibbles(r, Register::A);
        },
        Instruction::Load(r1, r2) | Instruction::Store(r1, r2) | Instruction::Mov(r1, r2)
        | Instruction::Add(r1, r2) | Instruction::Sub(r1, r2) | Instruction::Mul(r1, r2)
        | Instruction::Div(r1, r2) | Instruction::Shl(r1, r2) | Instruction::Shr(r1, r2)
        | Instruction::And(r1, r2) | Instruction::Or(r1, r2) | Instruction::Xor(r1, r2)
        | Instruction::Cmp(r1, r2) => {
            lemma_register_nibbles(r1, r2);
        },
        _ => {},
    }
}

/// Packing two register indices into an operand byte and unpacking them
/// yields the registers back.
proof fn lemma_register_nibbles(r1: Register, r2: Register)
    ensures
        low_reg((r1.index_spec() + r2.index_spec() * 16) as u8) == r1,
        high_reg((r1.index_spec() + r2.index_spec() * 16) as u8) == r2,
{
    lemma_nibble_split(r1.index_spec() as int, r2.index_spec() as int);
    crate::register::lemma_register_index_roundtrip(r1);
    crate::register::lemma_register_index_roundtrip(r2);
}

} // verus!
