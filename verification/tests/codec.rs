//! Tests of the instruction encoding, decoding and rendering, and of the
//! disassembler.

use strawberryvm::disasm::{decode_stream, disassemble};
use strawberryvm::mnemonics::render_instruction;
use strawberryvm::op::Instruction;
use strawberryvm::register::Register;
use strawberryvm::vm::VmError;

fn sample_instructions() -> Vec<Instruction> {
    vec![
        Instruction::Nop,
        Instruction::Push(0),
        Instruction::Push(255),
        Instruction::Pop(Register::A),
        Instruction::PushReg(Register::FL),
        Instruction::Mov(Register::B, Register::C),
        Instruction::Add(Register::A, Register::B),
        Instruction::Sub(Register::C, Register::D),
        Instruction::Mul(Register::SP, Register::PC),
        Instruction::Div(Register::BP, Register::FL),
        Instruction::Shl(Register::A, Register::D),
        Instruction::Shr(Register::D, Register::A),
        Instruction::And(Register::B, Register::B),
        Instruction::Or(Register::C, Register::A),
        Instruction::Xor(Register::A, Register::FL),
        Instruction::Not(Register::D),
        Instruction::Cmp(Register::A, Register::B),
        Instruction::Jmp(-128),
        Instruction::Jmp(127),
        Instruction::Je(-2),
        Instruction::Jne(0),
        Instruction::Load(Register::A, Register::D),
        Instruction::Store(Register::B, Register::C),
        Instruction::Signal(0xF0),
    ]
}

#[test]
fn encode_decode_roundtrip() {
    for instruction in sample_instructions() {
        let word = instruction.encode_u16();
        assert_eq!(Instruction::try_from_u16(word), Ok(instruction));
    }
}

#[test]
fn decode_rejects_unknown_opcode() {
    assert_eq!(Instruction::try_from_u16(0x000F), Err(0x0F));
    assert_eq!(Instruction::try_from_u16(0xAB50), Err(0x50));
}

#[test]
fn encoding_packs_operands() {
    assert_eq!(Instruction::Nop.encode_u16(), 0x0000);
    assert_eq!(Instruction::Push(0x0A).encode_u16(), 0x0A10);
    assert_eq!(Instruction::Pop(Register::B).encode_u16(), 0x0111);
    assert_eq!(Instruction::Add(Register::A, Register::B).encode_u16(), 0x1020);
    assert_eq!(Instruction::Jmp(-2).encode_u16(), 0xFE30);
    assert_eq!(Instruction::Signal(0xF0).encode_u16(), 0xF040);
}

#[test]
fn rendering_canonical_text() {
    assert_eq!(render_instruction(&Instruction::Nop), "Nop");
    assert_eq!(render_instruction(&Instruction::Push(10)), "Push 10");
    assert_eq!(render_instruction(&Instruction::Pop(Register::SP)), "Pop SP");
    assert_eq!(render_instruction(&Instruction::Add(Register::A, Register::B)), "Add A B");
    assert_eq!(render_instruction(&Instruction::Jmp(-2)), "Jmp -2");
    assert_eq!(render_instruction(&Instruction::Signal(240)), "Signal 240");
}

#[test]
fn disassemble_renders_each_word() {
    let bytes = [0x10, 0x0A, 0x11, 0x00, 0x20, 0x10];
    let lines = disassemble(&bytes).unwrap();
    assert_eq!(
        lines,
        vec![String::from("Push 10"), String::from("Pop A"), String::from("Add A B")]
    );
}

#[test]
fn disassemble_odd_length_fails() {
    let bytes = [0x10, 0x0A, 0x11];
    assert_eq!(disassemble(&bytes), Err(VmError::IncompleteInstruction));
    assert!(matches!(decode_stream(&[0x00]), Err(VmError::IncompleteInstruction)));
}

#[test]
fn disassemble_reports_unknown_opcode() {
    assert_eq!(disassemble(&[0x0F, 0x00]), Err(VmError::UnknownOpcode(0x0F)));
}

#[test]
fn decode_stream_empty_is_empty() {
    assert_eq!(decode_stream(&[]), Ok(vec![]));
}
