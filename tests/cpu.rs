use minivm::cpu::{Fault, LoadError, CPU};
use minivm::encoding::{encode, OpCode};

fn empty_cpu() -> CPU {
    CPU::new(&[]).unwrap()
}

#[test]
fn new_loads_program_into_zeroed_memory() {
    let cpu = CPU::new(&[0x1105, 0x0000]).unwrap();
    assert_eq!(cpu.memory[0], 0x1105);
    assert_eq!(cpu.memory[1], 0);
    assert!(cpu.memory[2..].iter().all(|w| *w == 0));
    assert_eq!(cpu.get_all_registers(), [0, 0, 0, 0]);
    assert_eq!((cpu.pc, cpu.ir, cpu.halted), (0, 0, false));
}

#[test]
fn new_accepts_a_full_memory_and_rejects_more() {
    let full = vec![7u16; 64];
    let cpu = CPU::new(&full).unwrap();
    assert_eq!(cpu.memory[63], 7);
    let over = vec![7u16; 65];
    assert!(matches!(CPU::new(&over), Err(LoadError::ProgramTooLarge(65))));
}

#[test]
fn fetch_loads_ir_and_advances_pc() {
    let mut cpu = CPU::new(&[0x1234, 0x5678]).unwrap();
    cpu.fetch().unwrap();
    assert_eq!((cpu.ir, cpu.pc), (0x1234, 1));
    cpu.fetch().unwrap();
    assert_eq!((cpu.ir, cpu.pc), (0x5678, 2));
}

#[test]
fn fetch_past_memory_faults_without_change() {
    let mut cpu = empty_cpu();
    cpu.pc = 64;
    assert_eq!(cpu.fetch(), Err(Fault::PcOutOfRange(64)));
    assert_eq!((cpu.pc, cpu.ir), (64, 0));
}

#[test]
fn decode_reads_the_instruction_register() {
    let mut cpu = empty_cpu();
    cpu.ir = 0x4301;
    assert_eq!(cpu.decode(), (4, 3, 1));
}

#[test]
fn selectors_alias_on_low_two_bits() {
    let mut cpu = empty_cpu();
    *cpu.get_register_mut(1) = 11;
    *cpu.get_register_mut(2) = 22;
    for s in 0u8..16 {
        assert_eq!(cpu.get_register(s), cpu.get_register(s & 0b11));
    }
    *cpu.get_register_mut(7) = 33;
    assert_eq!(cpu.get_all_registers(), [0, 11, 22, 33]);
    *cpu.get_register_mut(12) = 44;
    assert_eq!(cpu.get_all_registers(), [44, 11, 22, 33]);
}

#[test]
fn add_wraps_around() {
    let mut cpu = empty_cpu();
    *cpu.get_register_mut(0) = 65535;
    *cpu.get_register_mut(1) = 1;
    cpu.execute(OpCode::ADD.code(), 0, 1).unwrap();
    assert_eq!(cpu.get_register(0), 0);
    assert_eq!(cpu.get_register(1), 1);
}

#[test]
fn sub_wraps_around() {
    let mut cpu = empty_cpu();
    *cpu.get_register_mut(0) = 0;
    *cpu.get_register_mut(1) = 1;
    cpu.execute(OpCode::SUB.code(), 0, 1).unwrap();
    assert_eq!(cpu.get_register(0), 65535);
}

#[test]
fn lval_sets_only_its_register() {
    let mut cpu = CPU::new(&[9, 8, 7]).unwrap();
    *cpu.get_register_mut(3) = 5;
    let memory = cpu.memory;
    cpu.execute(OpCode::LVAL.code(), 2, 200).unwrap();
    assert_eq!(cpu.get_all_registers(), [0, 0, 200, 5]);
    assert_eq!(cpu.memory, memory);
    assert_eq!((cpu.pc, cpu.ir, cpu.halted), (0, 0, false));
}

#[test]
fn load_sets_only_its_register() {
    let mut cpu = CPU::new(&[9, 8, 7]).unwrap();
    let memory = cpu.memory;
    cpu.execute(OpCode::LOAD.code(), 1, 2).unwrap();
    assert_eq!(cpu.get_all_registers(), [0, 7, 0, 0]);
    assert_eq!(cpu.memory, memory);
}

#[test]
fn store_sets_only_its_cell() {
    let mut cpu = CPU::new(&[9, 8, 7]).unwrap();
    *cpu.get_register_mut(3) = 0xBEEF;
    let before = cpu.memory;
    cpu.execute(OpCode::STORE.code(), 3, 40).unwrap();
    for i in 0..64 {
        if i == 40 {
            assert_eq!(cpu.memory[i], 0xBEEF);
        } else {
            assert_eq!(cpu.memory[i], before[i]);
        }
    }
    assert_eq!(cpu.get_all_registers(), [0, 0, 0, 0xBEEF]);
}

#[test]
fn mov_copies_only_into_its_register() {
    let mut cpu = empty_cpu();
    *cpu.get_register_mut(0) = 1;
    *cpu.get_register_mut(1) = 2;
    *cpu.get_register_mut(2) = 3;
    cpu.execute(OpCode::MOV.code(), 3, 1).unwrap();
    assert_eq!(cpu.get_all_registers(), [1, 2, 3, 2]);
}

#[test]
fn halt_changes_nothing_but_the_flag() {
    let mut cpu = CPU::new(&[1, 2, 3]).unwrap();
    *cpu.get_register_mut(0) = 10;
    cpu.pc = 2;
    cpu.ir = 0x0123;
    let memory = cpu.memory;
    cpu.execute(OpCode::HALT.code(), 0, 0).unwrap();
    assert!(cpu.halted);
    assert_eq!(cpu.get_all_registers(), [10, 0, 0, 0]);
    assert_eq!(cpu.memory, memory);
    assert_eq!((cpu.pc, cpu.ir), (2, 0x0123));
}

#[test]
fn jmp_overwrites_pc() {
    let mut cpu = empty_cpu();
    cpu.pc = 9;
    cpu.execute(OpCode::JMP.code(), 0, 3).unwrap();
    assert_eq!(cpu.pc, 3);
}

#[test]
fn invalid_opcode_faults_without_change() {
    let mut cpu = empty_cpu();
    assert_eq!(cpu.execute(9, 0, 0), Err(Fault::InvalidOpcode(9)));
    assert_eq!(cpu.get_all_registers(), [0, 0, 0, 0]);
    assert!(!cpu.halted);
}

#[test]
fn load_and_store_past_memory_fault() {
    let mut cpu = empty_cpu();
    assert_eq!(cpu.execute(OpCode::LOAD.code(), 0, 64), Err(Fault::AddressOutOfRange(64)));
    assert_eq!(cpu.execute(OpCode::STORE.code(), 0, 255), Err(Fault::AddressOutOfRange(255)));
}

#[test]
fn step_runs_one_cycle_and_stops_when_halted() {
    let program = [encode(OpCode::LVAL, 0, 9), encode(OpCode::HALT, 0, 0)];
    let mut cpu = CPU::new(&program).unwrap();
    cpu.step().unwrap();
    assert_eq!((cpu.get_register(0), cpu.pc), (9, 1));
    cpu.step().unwrap();
    assert!(cpu.halted);
    assert_eq!(cpu.pc, 2);
    cpu.step().unwrap();
    assert_eq!(cpu.pc, 2);
}

#[test]
fn pc_wraps_at_sixteen_bits() {
    let mut cpu = empty_cpu();
    cpu.execute(OpCode::JMP.code(), 0, 63).unwrap();
    cpu.fetch().unwrap();
    assert_eq!(cpu.pc, 64);
    assert_eq!(cpu.step(), Err(Fault::PcOutOfRange(64)));
}

#[test]
fn log_registers_formats_a_row() {
    let mut cpu = empty_cpu();
    cpu.pc = 3;
    *cpu.get_register_mut(0) = 8;
    *cpu.get_register_mut(1) = 65535;
    *cpu.get_register_mut(3) = 120;
    assert_eq!(cpu.log_registers(), "  3 \u{2502}    8 \u{2502} 65535 \u{2502}    0 \u{2502}  120 ");
}

#[test]
fn default_is_the_empty_machine() {
    let cpu = CPU::default();
    assert_eq!(cpu.get_all_registers(), [0, 0, 0, 0]);
    assert_eq!(cpu.memory, [0u16; 64]);
    assert!(!cpu.halted);
}
