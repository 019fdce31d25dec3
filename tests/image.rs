use minivm::cpu::LoadError;
use minivm::image::{load_program, words_from_bytes, words_to_bytes};

#[test]
fn words_are_written_high_byte_first() {
    assert_eq!(words_to_bytes(&[0x1234, 0x00FF]), vec![0x12, 0x34, 0x00, 0xFF]);
    assert_eq!(words_to_bytes(&[]), Vec::<u8>::new());
}

#[test]
fn bytes_are_read_high_byte_first() {
    assert_eq!(words_from_bytes(&[0x12, 0x34, 0xAB, 0xCD]), Ok(vec![0x1234, 0xABCD]));
}

#[test]
fn odd_byte_counts_are_rejected() {
    assert_eq!(words_from_bytes(&[1, 2, 3]), Err(LoadError::OddByteCount(3)));
}

#[test]
fn bytes_round_trip() {
    let words = vec![0u16, 1, 0x8000, 0xFFFF, 0x1234];
    assert_eq!(words_from_bytes(&words_to_bytes(&words)), Ok(words));
}

#[test]
fn load_program_checks_size() {
    let cpu = load_program(&[0x11, 0x05, 0x00, 0x00]).unwrap();
    assert_eq!(cpu.memory[0], 0x1105);
    let big = vec![0u8; 130];
    assert!(matches!(load_program(&big), Err(LoadError::ProgramTooLarge(65))));
    assert!(matches!(load_program(&[1]), Err(LoadError::OddByteCount(1))));
}
