//! Tests of the memory subsystem: bounds checks, word accessors, block
//! copy, bulk load and the hex dump.

use strawberryvm::memory::{Addressable, Error, Linear, Memory};
use strawberryvm::register::Flag;
use strawberryvm::vm::Machine;

#[test]
fn write_then_read_is_visible() {
    let mut mem = Linear::new(1024);
    assert_eq!(mem.write(5, 42), Ok(()));
    assert_eq!(mem.read(5), Ok(42));
}

#[test]
fn out_of_range_accesses_fail() {
    let mut mem = Linear::new(1024);
    assert_eq!(mem.write(1024, 1), Err(Error::OutOfBounds(1024)));
    assert_eq!(mem.read(2000), Err(Error::OutOfBounds(2000)));
    // an in-range write still succeeds afterwards
    assert_eq!(mem.write(1023, 7), Ok(()));
    assert_eq!(mem.read(1023), Ok(7));
}

#[test]
fn words_are_little_endian() {
    let mut mem = Linear::new(16);
    mem.write_word(4, 0xABCD).unwrap();
    assert_eq!(mem.read(4), Ok(0xCD));
    assert_eq!(mem.read(5), Ok(0xAB));
    assert_eq!(mem.read_word(4), Ok(0xABCD));
}

#[test]
fn word_write_at_edge_fails_whole() {
    let mut mem = Linear::new(8);
    assert_eq!(mem.write_word(7, 0xFFFF), Err(Error::OutOfBounds(7)));
    // fail closed: the low byte was not written either
    assert_eq!(mem.read(7), Ok(0));
}

#[test]
fn copy_moves_bytes() {
    let mut mem = Linear::new(16);
    mem.load(&[1, 2, 3], 0).unwrap();
    mem.copy(0, 8, 3).unwrap();
    assert_eq!(mem.read(8), Ok(1));
    assert_eq!(mem.read(9), Ok(2));
    assert_eq!(mem.read(10), Ok(3));
    assert!(mem.copy(0, 15, 3).is_err());
}

#[test]
fn load_checks_whole_range() {
    let mut mem = Linear::new(4);
    assert_eq!(mem.load(&[1, 2, 3, 4, 5], 0), Err(Error::OutOfBounds(0)));
    assert_eq!(mem.read(0), Ok(0));
    assert_eq!(mem.load(&[9, 8], 2), Ok(()));
    assert_eq!(mem.read(2), Ok(9));
}

#[test]
fn fixed_memory_holds_256_bytes() {
    let mut mem = Memory::default();
    assert_eq!(mem.size(), 256);
    assert_eq!(mem.write(255, 1), Ok(()));
    assert_eq!(mem.read(255), Ok(1));
    assert_eq!(mem.write(256, 1), Err(Error::OutOfBounds(256)));
}

#[test]
fn dump_renders_hex_words() {
    let mut mem = Linear::new(4);
    mem.load(&[0x0A, 0xFF, 0x01, 0x00], 0).unwrap();
    assert_eq!(mem.dump(), "0aff 0100 ");
}

#[test]
fn flags_set_and_tested() {
    let mut machine = Machine::new();
    assert!(!machine.test_flag(Flag::Overflow));
    machine.set_flag(Flag::Overflow, true);
    machine.set_flag(Flag::Compare, true);
    assert!(machine.test_flag(Flag::Overflow));
    assert!(machine.test_flag(Flag::Compare));
    assert!(!machine.test_flag(Flag::Negative));
    machine.set_flag(Flag::Compare, false);
    assert!(!machine.test_flag(Flag::Compare));
    assert!(machine.test_flag(Flag::Overflow));
}
