use minivm::assembler::{assemble, assemble_bytes, AsmError, AsmErrorKind};
use minivm::cpu::CPU;

fn err(line: usize, kind: AsmErrorKind) -> Result<Vec<u16>, AsmError> {
    Err(AsmError { line, kind })
}

#[test]
fn assembles_each_mnemonic() {
    let src = "HALT\nLVAL R1, 200\nLOAD R2, 63\nSTORE R3, 0\nADD R0, R1\nSUB R2, R3\nJMP 5\nMOV R3, R0";
    assert_eq!(
        assemble(src),
        Ok(vec![0x0000, 0x11C8, 0x223F, 0x3300, 0x4001, 0x5203, 0x6005, 0x7300])
    );
}

#[test]
fn skips_comments_and_blank_lines() {
    let src = "; a comment\n\nLVAL R0, 1\n   \n;HALT\nHALT\n";
    assert_eq!(assemble(src), Ok(vec![0x1001, 0x0000]));
}

#[test]
fn empty_source_gives_no_words() {
    assert_eq!(assemble(""), Ok(vec![]));
}

#[test]
fn tolerates_spacing_and_carriage_returns() {
    assert_eq!(assemble("  LVAL   R0 ,  7  \r\nHALT\r\n"), Ok(vec![0x1007, 0x0000]));
    assert_eq!(assemble("ADD R0,R1"), Ok(vec![0x4001]));
}

#[test]
fn leading_zeros_are_allowed() {
    assert_eq!(assemble("LVAL R0, 0255"), Ok(vec![0x10FF]));
}

#[test]
fn unknown_mnemonic_fails_with_its_line() {
    assert_eq!(assemble("LVAL R0, 1\nNOP\nHALT"), err(2, AsmErrorKind::UnknownMnemonic));
    assert_eq!(assemble("halt"), err(1, AsmErrorKind::UnknownMnemonic));
}

#[test]
fn unknown_register_fails() {
    assert_eq!(assemble("HALT\nLVAL R4, 1"), err(2, AsmErrorKind::UnknownRegister));
    assert_eq!(assemble("MOV R0, X1"), err(1, AsmErrorKind::UnknownRegister));
    assert_eq!(assemble("ADD r0, R1"), err(1, AsmErrorKind::UnknownRegister));
}

#[test]
fn bad_numbers_fail() {
    assert_eq!(assemble("LVAL R0, 256"), err(1, AsmErrorKind::BadNumber));
    assert_eq!(assemble("LVAL R0, 1x"), err(1, AsmErrorKind::BadNumber));
    assert_eq!(assemble("LVAL R0, -1"), err(1, AsmErrorKind::BadNumber));
    assert_eq!(assemble("JMP"), err(1, AsmErrorKind::WrongArgCount));
    assert_eq!(assemble("LVAL R0,"), err(1, AsmErrorKind::BadNumber));
    assert_eq!(assemble("LVAL R0, 99999999999"), err(1, AsmErrorKind::BadNumber));
}

#[test]
fn addresses_past_memory_fail() {
    assert_eq!(assemble("LOAD R0, 64"), err(1, AsmErrorKind::AddressOutOfRange));
    assert_eq!(assemble("STORE R0, 100"), err(1, AsmErrorKind::AddressOutOfRange));
    assert_eq!(assemble("JMP 200"), err(1, AsmErrorKind::AddressOutOfRange));
    assert_eq!(assemble("LVAL R0, 200"), Ok(vec![0x10C8]));
}

#[test]
fn wrong_argument_counts_fail() {
    assert_eq!(assemble("HALT R0"), err(1, AsmErrorKind::WrongArgCount));
    assert_eq!(assemble("LVAL R0"), err(1, AsmErrorKind::WrongArgCount));
    assert_eq!(assemble("ADD R0, R1, R2"), err(1, AsmErrorKind::WrongArgCount));
    assert_eq!(assemble("JMP 1, 2"), err(1, AsmErrorKind::WrongArgCount));
}

#[test]
fn first_fault_wins() {
    assert_eq!(assemble("NOP\nLVAL R9, 1"), err(1, AsmErrorKind::UnknownMnemonic));
}

#[test]
fn bytes_and_text_agree() {
    let src = "LVAL R2, 17\nHALT";
    assert_eq!(assemble_bytes(src.as_bytes()), assemble(src));
}

fn run_to_halt(cpu: &mut CPU) {
    for _ in 0..1000 {
        if cpu.halted {
            return;
        }
        cpu.step().unwrap();
    }
    panic!("program did not halt");
}

#[test]
fn end_to_end_add_program() {
    let words = assemble("LVAL R0, 5\nLVAL R1, 3\nADD R0, R1\nHALT").unwrap();
    let mut cpu = CPU::new(&words).unwrap();
    run_to_halt(&mut cpu);
    assert_eq!(cpu.get_register(0), 8);
    assert!(cpu.halted);
    assert_eq!(cpu.pc, 4);
}

#[test]
fn end_to_end_jump_overwrites_pc() {
    let words = assemble("JMP 0\nHALT").unwrap();
    let mut cpu = CPU::new(&words).unwrap();
    cpu.fetch().unwrap();
    assert_eq!(cpu.pc, 1);
    let (opcode, register, operand) = cpu.decode();
    cpu.execute(opcode, register, operand).unwrap();
    assert_eq!(cpu.pc, 0);
    assert!(!cpu.halted);
}
