//! Tests of the execution engine: stepping, the stack, flags, signals and
//! the bundled driving loops.

use strawberryvm::memory::Addressable;
use strawberryvm::register::{Flag, Register};
use strawberryvm::runner::{process_input, run};
use strawberryvm::signals::{apply_signals, sig_halt};
use strawberryvm::vm::{MEMORY_KILO_BYTES, Machine, SignalHandler, VmError};

#[test]
fn unknown_instruction() {
    let mut machine = Machine::new();
    machine.memory.write(0, 0xF).unwrap();
    assert!(machine.step().is_err());
}

#[test]
fn lib_unknown_instruction() {
    let mut machine = Machine::new();
    machine.memory.write(0, 0xF).unwrap();
    assert_eq!(machine.step(), Err(VmError::UnknownOpcode(0xF)));
}

#[test]
fn out_of_bound() {
    let mut machine = Machine::new();

    assert!(machine.memory.write((MEMORY_KILO_BYTES * 1024 + 1) as u16, 0xF).is_err());
}

#[test]
fn out_of_bounds() {
    let mut machine = Machine::new();

    assert!(machine
        .memory
        .write(u16::try_from(MEMORY_KILO_BYTES * 1024 + 1).unwrap(), 0xf)
        .is_err());
}

/// push 10; pop A; push 8; pop B; add A B; signal 0xF0
const ADDITION_PROGRAM: [u8; 12] = [
    0x10, 0x0a, 0x11, 0x00, 0x10, 0x08, 0x11, 0x01, 0x20, 0x10, 0x40, 0xf0,
];

#[test]
fn addition() {
    let mut machine = Machine::new();
    machine.define_handler(0xf0, SignalHandler::Halt);
    machine.load_program(&ADDITION_PROGRAM).unwrap();

    for _ in 0..6 {
        machine.step().unwrap();
    }

    assert_eq!(machine.get_register(Register::A), 18);
    assert!(machine.machine_halted);
}

#[test]
fn lib_addition() {
    let machine = run(&ADDITION_PROGRAM).unwrap();
    assert_eq!(machine.get_register(Register::A), 18);
}

#[test]
fn subsequent_addition() {
    let mut machine = Machine::new();
    machine.define_handler(0xf0, SignalHandler::Halt);

    for _ in 1..=2 {
        let mut addr = 0;
        for byte in ADDITION_PROGRAM {
            machine.memory.write(addr, byte).unwrap();
            addr += 1;
        }

        for _ in 0..6 {
            machine.step().unwrap();
        }

        assert_eq!(machine.get_register(Register::A), 18);
    }
}

#[test]
fn lib_subsequent_addition() {
    let mut machine = Machine::new();
    machine.define_handler(0xf0, SignalHandler::Halt);

    for _ in 1..=2 {
        machine.load_program(&ADDITION_PROGRAM).unwrap();

        for _ in 0..6 {
            machine.step().unwrap();
        }

        assert_eq!(machine.get_register(Register::A), 18);
    }
}

#[test]
fn stack_push_pop_roundtrip() {
    let mut machine = Machine::new();
    assert_eq!(machine.get_register(Register::SP), 0);
    machine.push(1234).unwrap();
    assert_eq!(machine.get_register(Register::SP), 2);
    assert_eq!(machine.pop(), Ok(1234));
    assert_eq!(machine.get_register(Register::SP), 0);
}

#[test]
fn stack_underflow() {
    let mut machine = Machine::new();
    assert_eq!(machine.pop(), Err(VmError::StackUnderflow));

    // The same through a Pop instruction with SP = 0.
    let mut vm = Machine::new();
    vm.load_program(&[0x11, 0x00]).unwrap();
    assert_eq!(vm.step(), Err(VmError::StackUnderflow));
}

#[test]
fn flags_after_overflowing_add() {
    // Not A (A = 0xFFFF); push 1; pop B; add A B
    let mut machine = Machine::new();
    machine.load_program(&[0x29, 0x00, 0x10, 0x01, 0x11, 0x01, 0x20, 0x10]).unwrap();

    machine.step().unwrap();
    assert_eq!(machine.get_register(Register::A), 0xFFFF);
    for _ in 0..3 {
        machine.step().unwrap();
    }

    assert_eq!(machine.get_register(Register::A), 0);
    assert!(machine.test_flag(Flag::Overflow));
    assert!(machine.test_flag(Flag::Compare));
    assert!(!machine.test_flag(Flag::Negative));
}

#[test]
fn flags_after_cmp() {
    // push 1; pop B; cmp A B — A = 0 < B = 1
    let mut machine = Machine::new();
    machine.load_program(&[0x10, 0x01, 0x11, 0x01, 0x2A, 0x10]).unwrap();

    for _ in 0..3 {
        machine.step().unwrap();
    }

    assert!(machine.test_flag(Flag::Negative));
    assert!(!machine.test_flag(Flag::Compare));
    assert_eq!(machine.get_register(Register::A), 0);
    assert_eq!(machine.get_register(Register::B), 1);
}

#[test]
fn division_by_zero() {
    // div A B with B = 0
    let mut machine = Machine::new();
    machine.load_program(&[0x23, 0x10]).unwrap();
    assert_eq!(machine.step(), Err(VmError::DivisionByZero));
}

#[test]
fn unknown_signal() {
    let mut machine = Machine::new();
    machine.load_program(&[0x40, 0x99]).unwrap();
    assert_eq!(machine.step(), Err(VmError::UnknownSignal(0x99)));
}

#[test]
fn sig_halt_sets_flag() {
    let mut machine = Machine::new();
    assert!(!machine.machine_halted);
    sig_halt(&mut machine);
    assert!(machine.machine_halted);
}

#[test]
fn standard_signals_log_register_a() {
    let mut machine = Machine::new();
    apply_signals(&mut machine);
    machine.load_program(&[0x40, 0xF1]).unwrap();
    machine.step().unwrap();
    let out = machine.take_output();
    assert_eq!(out, vec![String::from("A = 0")]);
    assert!(machine.take_output().is_empty());
}

#[test]
fn status_renders_registers() {
    let machine = Machine::new();
    assert_eq!(machine.status(), "A=0 B=0 C=0 D=0 SP=0 PC=0 BP=0 FL=0");
}

#[test]
fn iterate_advances_pc() {
    let mut machine = Machine::new();
    machine.iterate(3).unwrap();
    assert_eq!(machine.get_register(Register::PC), 6);
}

#[test]
fn iterate_stops_on_error() {
    let mut machine = Machine::new();
    machine.memory.write(0, 0xF).unwrap();
    assert!(machine.iterate(5).is_err());
    assert_eq!(machine.get_register(Register::PC), 2);
}

#[test]
fn process_input_steps_once() {
    let mut machine = Machine::new();
    // push 5, fed one word at a time as the interactive loop does
    process_input(&mut machine, 0, 0x0510).unwrap();
    assert_eq!(machine.get_register(Register::SP), 2);
    assert_eq!(machine.get_register(Register::PC), 2);
}

#[test]
fn jump_is_relative_to_next_instruction() {
    // jmp 1 skips one word: PC = 2 + 2 after the branch
    let mut machine = Machine::new();
    machine.load_program(&[0x30, 0x01, 0x0F, 0x0F, 0x00, 0x00]).unwrap();
    machine.step().unwrap();
    assert_eq!(machine.get_register(Register::PC), 4);
    // the skipped word held an unknown opcode; the next step is a Nop
    machine.step().unwrap();
    assert_eq!(machine.get_register(Register::PC), 6);
}

#[test]
fn conditional_branch_follows_compare() {
    // cmp A B (equal, sets Compare); je 1 taken
    let mut machine = Machine::new();
    machine.load_program(&[0x2A, 0x10, 0x31, 0x01]).unwrap();
    machine.step().unwrap();
    assert!(machine.test_flag(Flag::Compare));
    machine.step().unwrap();
    assert_eq!(machine.get_register(Register::PC), 6);
}

#[test]
fn load_and_store_move_words() {
    // push 7; pop B (B = 7); store B A (write B at address in A = 0x10? ...)
    // Use D as the address register: set D via push/pop, then store/load.
    let mut machine = Machine::new();
    // push 100; pop D; push 7; pop B; store B D; load C D
    machine
        .load_program(&[
            0x10, 0x64, 0x11, 0x03, 0x10, 0x07, 0x11, 0x01, 0x14, 0x31, 0x13, 0x32,
        ])
        .unwrap();
    for _ in 0..6 {
        machine.step().unwrap();
    }
    assert_eq!(machine.get_register(Register::C), 7);
    assert_eq!(machine.memory.read_word(100), Ok(7));
}

#[test]
fn run_reports_memory_fault() {
    // pop with SP = 0 underflows immediately
    assert!(matches!(run(&[0x11, 0x00]), Err(VmError::StackUnderflow)));
}
