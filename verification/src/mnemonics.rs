//! The textual side of the instruction table: instruction and register
//! names (parsed case-insensitively), and the canonical rendering
//! `"<Name> <operand> <operand>"` used by the disassembler.

use vstd::prelude::*;

use crate::op::{Instruction, OperandShape};
use crate::register::Register;
use crate::text::{dec_str, dec_string, eq_upcased, i8_str, i8_string, upcase};

verus! {

/// The canonical name of a register.
pub open spec fn reg_name(r: Register) -> Seq<char> {
    match r {
        Register::A => "A"@,
        Register::B => "B"@,
        Register::C => "C"@,
        Register::D => "D"@,
        Register::SP => "SP"@,
        Register::PC => "PC"@,
        Register::BP => "BP"@,
        Register::FL => "FL"@,
    }
}

/// The canonical name of a register, as a string.
pub fn reg_name_string(r: Register) -> (s: String)
    ensures
        s@ == reg_name(r),
{
    match r {
        Register::A => String::from_str("A"),
        Register::B => String::from_str("B"),
        Register::C => String::from_str("C"),
        Register::D => String::from_str("D"),
        Register::SP => String::from_str("SP"),
        Register::PC => String::from_str("PC"),
        Register::BP => String::from_str("BP"),
        Register::FL => String::from_str("FL"),
    }
}

/// The register a name denotes, compared case-insensitively.
pub open spec fn spec_parse_register(s: Seq<char>) -> Option<Register> {
    let u = upcase(s);
    if u == "A"@ {
        Some(Register::A)
    } else if u == "B"@ {
        Some(Register::B)
    } else if u == "C"@ {
        Some(Register::C)
    } else if u == "D"@ {
        Some(Register::D)
    } else if u == "SP"@ {
        Some(Register::SP)
    } else if u == "PC"@ {
        Some(Register::PC)
    } else if u == "BP"@ {
        Some(Register::BP)
    } else if u == "FL"@ {
        Some(Register::FL)
    } else {
        None
    }
}

/// Parse a register name, case-insensitively.
pub fn parse_register(s: &str) -> (r: Option<Register>)
    ensures
        r == spec_parse_register(s@),
{
    if eq_upcased(s, "A") {
        Some(Register::A)
    } else if eq_upcased(s, "B") {
        Some(Register::B)
    } else if eq_upcased(s, "C") {
        Some(Register::C)
    } else if eq_upcased(s, "D") {
        Some(Register::D)
    } else if eq_upcased(s, "SP") {
        Some(Register::SP)
    } else if eq_upcased(s, "PC") {
        Some(Register::PC)
    } else if eq_upcased(s, "BP") {
        Some(Register::BP)
    } else if eq_upcased(s, "FL") {
        Some(Register::FL)
    } else {
        None
    }
}

/// The opcode an instruction name denotes, compared case-insensitively.
pub open spec fn spec_mnemonic(s: Seq<char>) -> Option<u8> {
    let u = upcase(s);
    if u == "NOP"@ {
        Some(0x00u8)
    } else if u == "PUSH"@ {
        Some(0x10u8)
    } else if u == "POP"@ {
        Some(0x11u8)
    } else if u == "PUSHREG"@ {
        Some(0x12u8)
    } else if u == "LOAD"@ {
        Some(0x13u8)
    } else if u == "STORE"@ {
        Some(0x14u8)
    } else if u == "MOV"@ {
        Some(0x15u8)
    } else if u == "ADD"@ {
        Some(0x20u8)
    } else if u == "SUB"@ {
        Some(0x21u8)
    } else if u == "MUL"@ {
        Some(0x22u8)
    } else if u == "DIV"@ {
        Some(0x23u8)
    } else if u == "SHL"@ {
        Some(0x24u8)
    } else if u == "SHR"@ {
        Some(0x25u8)
    } else if u == "AND"@ {
        Some(0x26u8)
    } else if u == "OR"@ {
        Some(0x27u8)
    } else if u == "XOR"@ {
        Some(0x28u8)
    } else if u == "NOT"@ {
        Some(0x29u8)
    } else if u == "CMP"@ {
        Some(0x2Au8)
    } else if u == "JMP"@ {
        Some(0x30u8)
    } else if u == "JE"@ {
        Some(0x31u8)
    } else if u == "JNE"@ {
        Some(0x32u8)
    } else if u == "SIGNAL"@ {
        Some(0x40u8)
    } else {
        None
    }
}

/// Look an instruction name up in the table, case-insensitively.
pub fn mnemonic_opcode(s: &str) -> (r: Option<u8>)
    ensures
        r == spec_mnemonic(s@),
{
    if eq_upcased(s, "NOP") {
        Some(0x00)
    } else if eq_upcased(s, "PUSH") {
        Some(0x10)
    } else if eq_upcased(s, "POP") {
        Some(0x11)
    } else if eq_upcased(s, "PUSHREG") {
        Some(0x12)
    } else if eq_upcased(s, "LOAD") {
        Some(0x13)
    } else if eq_upcased(s, "STORE") {
        Some(0x14)
    } else if eq_upcased(s, "MOV") {
        Some(0x15)
    } else if eq_upcased(s, "ADD") {
        Some(0x20)
    } else if eq_upcased(s, "SUB") {
        Some(0x21)
    } else if eq_upcased(s, "MUL") {
        Some(0x22)
    } else if eq_upcased(s, "DIV") {
        Some(0x23)
    } else if eq_upcased(s, "SHL") {
        Some(0x24)
    } else if eq_upcased(s, "SHR") {
        Some(0x25)
    } else if eq_upcased(s, "AND") {
        Some(0x26)
    } else if eq_upcased(s, "OR") {
        Some(0x27)
    } else if eq_upcased(s, "XOR") {
        Some(0x28)
    } else if eq_upcased(s, "NOT") {
        Some(0x29)
    } else if eq_upcased(s, "CMP") {
        Some(0x2A)
    } else if eq_upcased(s, "JMP") {
        Some(0x30)
    } else if eq_upcased(s, "JE") {
        Some(0x31)
    } else if eq_upcased(s, "JNE") {
        Some(0x32)
    } else if eq_upcased(s, "SIGNAL") {
        Some(0x40)
    } else {
        None
    }
}

/// The canonical text of an instruction: its table name, then its operands
/// separated by single spaces. Immediates render in decimal, offsets in
/// signed decimal.
pub open spec fn spec_render(i: Instruction) -> Seq<char> {
    match i {
        Instruction::Nop => "Nop"@,
        Instruction::Push(v) => "Push "@ + dec_str(v as int),
        Instruction::Pop(r) => "Pop "@ + reg_name(r),
        Instruction::PushReg(r) => "PushReg "@ + reg_name(r),
        Instruction::Load(r1, r2) => "Load "@ + reg_name(r1) + " "@ + reg_name(r2),
        Instruction::Store(r1, r2) => "Store "@ + reg_name(r1) + " "@ + reg_name(r2),
        Instruction::Mov(r1, r2) => "Mov "@ + reg_name(r1) + " "@ + reg_name(r2),
        Instruction::Add(r1, r2) => "Add "@ + reg_name(r1) + " "@ + reg_name(r2),
        Instruction::Sub(r1, r2) => "Sub "@ + reg_name(r1) + " "@ + reg_name(r2),
        Instruction::Mul(r1, r2) => "Mul "@ + reg_name(r1) + " "@ + reg_name(r2),
        Instruction::Div(r1, r2) => "Div "@ + reg_name(r1) + " "@ + reg_name(r2),
        Instruction::Shl(r1, r2) => "Shl "@ + reg_name(r1) + " "@ + reg_name(r2),
        Instruction::Shr(r1, r2) => "Shr "@ + reg_name(r1) + " "@ + reg_name(r2),
        Instruction::And(r1, r2) => "And "@ + reg_name(r1) + " "@ + reg_name(r2),
        Instruction::Or(r1, r2) => "Or "@ + reg_name(r1) + " "@ + reg_name(r2),
        Instruction::Xor(r1, r2) => "Xor "@ + reg_name(r1) + " "@ + reg_name(r2),
        Instruction::Not(r) => "Not "@ + reg_name(r),
        Instruction::Cmp(r1, r2) => "Cmp "@ + reg_name(r1) + " "@ + reg_name(r2),
        Instruction::Jmp(o) => "Jmp "@ + i8_str(o as int),
        Instruction::Je(o) => "Je "@ + i8_str(o as int),
        Instruction::Jne(o) => "Jne "@ + i8_str(o as int),
        Instruction::Signal(v) => "Signal "@ + dec_str(v as int),
    }
}

/// Render `prefix` followed by two register names.
fn render_rr(prefix: &'static str, r1: Register, r2: Register) -> (s: String)
    ensures
        s@ == prefix@ + reg_name(r1) + " "@ + reg_name(r2),
{
    let mut s = String::from_str(prefix);
    s.append(reg_name_string(r1).as_str());
    s.append(" ");
    s.append(reg_name_string(r2).as_str());
    proof {
        assert(s@ =~= prefix@ + reg_name(r1) + " "@ + reg_name(r2));
    }
    s
}

/// Render `prefix` followed by one register name.
fn render_r(prefix: &'static str, r: Register) -> (s: String)
    ensures
        s@ == prefix@ + reg_name(r),
{
    let mut s = String::from_str(prefix);
    s.append(reg_name_string(r).as_str());
    s
}

/// Render `prefix` followed by a decimal immediate.
fn render_imm(prefix: &'static str, v: u8) -> (s: String)
    ensures
        s@ == prefix@ + dec_str(v as int),
{
    let mut s = String::from_str(prefix);
    s.append(dec_string(v as u16).as_str());
    s
}

/// Render `prefix` followed by a signed decimal offset.
fn render_off(prefix: &'static str, o: i8) -> (s: String)
    ensures
        s@ == prefix@ + i8_str(o as int),
{
    let mut s = String::from_str(prefix);
    s.append(i8_string(o).as_str());
    s
}

/// Render an instruction in its canonical text form.
pub fn render_instruction(i: &Instruction) -> (s: String)
    ensures
        s@ == spec_render(*i),
{
    match i {
        Instruction::Nop => String::from_str("Nop"),
        Instruction::Push(v) => render_imm("Push ", *v),
        Instruction::Pop(r) => render_r("Pop ", *r),
        Instruction::PushReg(r) => render_r("PushReg ", *r),
        Instruction::Load(r1, r2) => render_rr("Load ", *r1, *r2),
        Instruction::Store(r1, r2) => render_rr("Store ", *r1, *r2),
        Instruction::Mov(r1, r2) => render_rr("Mov ", *r1, *r2),
        Instruction::Add(r1, r2) => render_rr("Add ", *r1, *r2),
        Instruction::Sub(r1, r2) => render_rr("Sub ", *r1, *r2),
        Instruction::Mul(r1, r2) => render_rr("Mul ", *r1, *r2),
        Instruction::Div(r1, r2) => render_rr("Div ", *r1, *r2),
        Instruction::Shl(r1, r2) => render_rr("Shl ", *r1, *r2),
        Instruction::Shr(r1, r2) => render_rr("Shr ", *r1, *r2),
        Instruction::And(r1, r2) => render_rr("And ", *r1, *r2),
        Instruction::Or(r1, r2) => render_rr("Or ", *r1, *r2),
        Instruction::Xor(r1, r2) => render_rr("Xor ", *r1, *r2),
        Instruction::Not(r) => render_r("Not ", *r),
        Instruction::Cmp(r1, r2) => render_rr("Cmp ", *r1, *r2),
        Instruction::Jmp(o) => render_off("Jmp ", *o),
        Instruction::Je(o) => render_off("Je ", *o),
        Instruction::Jne(o) => render_off("Jne ", *o),
        Instruction::Signal(v) => render_imm("Signal ", *v),
    }
}

/// The operand shape that belongs to each opcode of the table; opcodes
/// outside the table are given `NoOperands`, but never looked up.
pub open spec fn shape_for_opcode(op: u8) -> OperandShape {
    if op == 0x10 || op == 0x40 {
        OperandShape::Immediate
    } else if op == 0x11 || op == 0x12 || op == 0x29 {
        OperandShape::OneRegister
    } else if op == 0x13 || op == 0x14 || op == 0x15 || op == 0x20 || op == 0x21 || op == 0x22
        || op == 0x23 || op == 0x24 || op == 0x25 || op == 0x26 || op == 0x27 || op == 0x28 || op
        == 0x2A {
        OperandShape::TwoRegisters
    } else if op == 0x30 || op == 0x31 || op == 0x32 {
        OperandShape::Offset
    } else {
        OperandShape::NoOperands
    }
}

/// Exec counterpart of [`shape_for_opcode`].
pub fn opcode_shape(op: u8) -> (s: OperandShape)
    ensures
        s == shape_for_opcode(op),
{
    if op == 0x10 || op == 0x40 {
        OperandShape::Immediate
    } else if op == 0x11 || op == 0x12 || op == 0x29 {
        OperandShape::OneRegister
    } else if op == 0x13 || op == 0x14 || op == 0x15 || op == 0x20 || op == 0x21 || op == 0x22
        || op == 0x23 || op == 0x24 || op == 0x25 || op == 0x26 || op == 0x27 || op == 0x28 || op
        == 0x2A {
        OperandShape::TwoRegisters
    } else if op == 0x30 || op == 0x31 || op == 0x32 {
        OperandShape::Offset
    } else {
        OperandShape::NoOperands
    }
}

/// The shape table agrees with the shape of every instruction: looking up
/// an instruction's opcode yields that instruction's own operand shape.
pub proof fn lemma_table_shapes(i: Instruction)
    ensures
        shape_for_opcode(i.opcode_spec()) == i.shape_spec(),
{
}

/// How many tokens a line with this operand shape has: the name plus one
/// token per operand.
pub open spec fn shape_arity(s: OperandShape) -> int {
    match s {
        OperandShape::NoOperands => 1,
        OperandShape::Immediate => 2,
        OperandShape::OneRegister => 2,
        OperandShape::TwoRegisters => 3,
        OperandShape::Offset => 2,
    }
}

/// Exec counterpart of [`shape_arity`].
pub fn arity_of(s: OperandShape) -> (n: usize)
    ensures
        n as int == shape_arity(s),
{
    match s {
        OperandShape::NoOperands => 1,
        OperandShape::Immediate => 2,
        OperandShape::OneRegister => 2,
        OperandShape::TwoRegisters => 3,
        OperandShape::Offset => 2,
    }
}

} // verus!
