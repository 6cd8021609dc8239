//! Tests of the assembler: lexing, numerals, labels, line validation and
//! whole-program assembly, and its agreement with the disassembler.

use strawberryvm::arguments::Arguments;
use strawberryvm::assembler::{Assembler, validate_jam, validate_line};
use strawberryvm::disasm::disassemble;
use strawberryvm::helpers::{assert_length, split_u16};
use strawberryvm::mnemonics::parse_register;
use strawberryvm::panic_report::{get_last_status, set_last_status};
use strawberryvm::parsing::{InstructionParseError, JamParseError, parse_numeric, tokenize};
use strawberryvm::passes::{collect_labels, remove_comments_pass};
use strawberryvm::register::Register;

fn lines(texts: &[&str]) -> Vec<String> {
    texts.iter().map(|t| String::from(*t)).collect()
}

#[test]
fn numerals_in_three_radixes() {
    assert_eq!(parse_numeric("42"), Some(42));
    assert_eq!(parse_numeric("$ff"), Some(255));
    assert_eq!(parse_numeric("$FF"), Some(255));
    assert_eq!(parse_numeric("%1010"), Some(10));
    assert_eq!(parse_numeric("0"), Some(0));
}

#[test]
fn numerals_rejected() {
    assert_eq!(parse_numeric(""), None);
    assert_eq!(parse_numeric("$"), None);
    assert_eq!(parse_numeric("256"), None);
    assert_eq!(parse_numeric("12x"), None);
    assert_eq!(parse_numeric("%102"), None);
}

#[test]
fn tokens_split_on_whitespace() {
    assert_eq!(tokenize("  push   10 "), vec![String::from("push"), String::from("10")]);
    assert_eq!(tokenize(""), Vec::<String>::new());
    assert_eq!(tokenize("\t a \t b"), vec![String::from("a"), String::from("b")]);
}

#[test]
fn comments_stripped_at_semicolon() {
    assert_eq!(remove_comments_pass("push 1 ; comment"), Some(String::from("push 1 ")));
    assert_eq!(remove_comments_pass("; whole line"), None);
    assert_eq!(remove_comments_pass(""), None);
    assert_eq!(remove_comments_pass("nop"), Some(String::from("nop")));
}

#[test]
fn registers_parse_case_insensitively() {
    assert_eq!(parse_register("A"), Some(Register::A));
    assert_eq!(parse_register("sp"), Some(Register::SP));
    assert_eq!(parse_register("Fl"), Some(Register::FL));
    assert_eq!(parse_register("Z"), None);
}

#[test]
fn label_offsets() {
    let table = collect_labels(&lines(&["start:", "Nop", "loop:", "Jmp ^loop"])).unwrap();
    assert_eq!(table, vec![(String::from("start"), 0), (String::from("loop"), 2)]);
}

#[test]
fn label_lines_consume_no_bytes() {
    let source = lines(&["start:", "push 1", "; comment only", "", "end:", "pop A"]);
    let table = collect_labels(&source).unwrap();
    assert_eq!(table, vec![(String::from("start"), 0), (String::from("end"), 2)]);
}

#[test]
fn assemble_simple_program() {
    let source = lines(&["push 10", "pop A", "add A B ; add them"]);
    let assembler = Assembler::new(vec![], source.clone());
    let bytes = assembler.parse_vec(&source).unwrap();
    assert_eq!(bytes, vec![0x10, 0x0A, 0x11, 0x00, 0x20, 0x10]);
}

#[test]
fn assembler_and_disassembler_agree() {
    let source = lines(&["start:", "push 10", "pop A", "loop:", "add A B", "jmp ^loop"]);
    let labels = collect_labels(&source).unwrap();
    let assembler = Assembler::new(labels, source.clone());
    let bytes = assembler.parse_vec(&source).unwrap();
    let text = disassemble(&bytes).unwrap();
    assert_eq!(
        text,
        vec![
            String::from("Push 10"),
            String::from("Pop A"),
            String::from("Add A B"),
            String::from("Jmp 4"),
        ]
    );
}

#[test]
fn parse_input_appends_output() {
    let source = lines(&["push 1", "nop"]);
    let mut assembler = Assembler::new(vec![], source);
    assembler.parse_input().unwrap();
    assert_eq!(assembler.output, vec![0x10, 0x01, 0x00, 0x00]);
}

#[test]
fn parse_line_encodes_one_instruction() {
    let assembler = Assembler::new(vec![], vec![]);
    assert_eq!(assembler.parse_line(String::from("PUSH $FF"), 1), Ok(0xFF10));
    assert_eq!(assembler.parse_line(String::from("pop sp"), 1), Ok(0x0411));
}

#[test]
fn parse_line_reports_empty_lines() {
    let assembler = Assembler::new(vec![], vec![]);
    assert_eq!(assembler.parse_line(String::from("; note"), 4), Err(JamParseError::Empty(4)));
    assert_eq!(assembler.parse_line(String::from("here:"), 7), Err(JamParseError::Empty(7)));
}

#[test]
fn error_invalid_opcode() {
    let assembler = Assembler::new(vec![], vec![]);
    assert_eq!(
        assembler.parse_line(String::from("frobnicate"), 3),
        Err(JamParseError::InvalidOpCode(String::from("frobnicate"), 3))
    );
}

#[test]
fn error_arity_mismatch() {
    let assembler = Assembler::new(vec![], vec![]);
    assert_eq!(
        assembler.parse_line(String::from("push"), 2),
        Err(JamParseError::ArityMismatch(2, 1, 2))
    );
    assert_eq!(
        assembler.parse_line(String::from("add A"), 5),
        Err(JamParseError::ArityMismatch(3, 2, 5))
    );
}

#[test]
fn error_invalid_operand() {
    let assembler = Assembler::new(vec![], vec![]);
    assert_eq!(
        assembler.parse_line(String::from("push zz"), 1),
        Err(JamParseError::InvalidOperand(String::from("zz"), 1))
    );
    assert_eq!(
        assembler.parse_line(String::from("pop Q"), 1),
        Err(JamParseError::InvalidOperand(String::from("Q"), 1))
    );
}

#[test]
fn error_unresolved_label() {
    let assembler = Assembler::new(vec![], vec![]);
    assert_eq!(
        assembler.parse_line(String::from("jmp ^missing"), 9),
        Err(JamParseError::UnresolvedLabel(String::from("^missing"), 9))
    );
}

#[test]
fn first_invalid_line_stops_assembly() {
    let source = lines(&["push 1", "bogus here", "pop A"]);
    let assembler = Assembler::new(vec![], source.clone());
    assert_eq!(
        assembler.parse_vec(&source),
        Err(JamParseError::InvalidOpCode(String::from("bogus"), 2))
    );
}

#[test]
fn validate_line_accepts_labels_and_instructions() {
    assert_eq!(validate_line("push 1", 1), Ok(()));
    assert_eq!(validate_line("start:", 1), Ok(()));
    assert_eq!(validate_line("", 6), Err(JamParseError::Empty(6)));
    assert_eq!(
        validate_line("wat", 2),
        Err(JamParseError::InvalidOpCode(String::from("wat"), 2))
    );
}

#[test]
fn validate_jam_checks_whole_program() {
    assert_eq!(
        validate_jam(&lines(&["start:", "push 1", "jmp ^start", "; done"])),
        Ok(())
    );
    assert_eq!(
        validate_jam(&lines(&["push 1", "jmp ^nowhere"])),
        Err(JamParseError::UnresolvedLabel(String::from("^nowhere"), 2))
    );
}

#[test]
fn negative_offsets_parse_and_render() {
    let assembler = Assembler::new(vec![], vec![]);
    // -2 in two's complement is 0xFE in the operand byte
    assert_eq!(assembler.parse_line(String::from("jmp -2"), 1), Ok(0xFE30));
    assert_eq!(
        disassemble(&[0x30, 0xFE]).unwrap(),
        vec![String::from("Jmp -2")]
    );
}

#[test]
fn word_splitting() {
    assert_eq!(split_u16(0xABCD), (0xCD, 0xAB));
    assert_eq!(split_u16(0x0001), (0x01, 0x00));
}

#[test]
fn token_count_checked() {
    let toks = vec![String::from("push"), String::from("1")];
    assert_eq!(assert_length(&toks, 2), Ok(()));
    assert_eq!(
        assert_length(&toks, 3),
        Err(InstructionParseError::ArityMismatch(3, 2))
    );
}

#[test]
fn default_arguments_are_empty() {
    let args = Arguments::default();
    assert!(args.input.is_none());
    assert!(args.output.is_none());
    assert!(!args.run);
}

#[test]
fn status_slot_roundtrip() {
    let mut slot: Option<String> = None;
    assert_eq!(get_last_status(&slot), None);
    set_last_status(&mut slot, String::from("A=1"));
    assert_eq!(get_last_status(&slot), Some(String::from("A=1")));
}
