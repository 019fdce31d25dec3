use minivm::assembler::assemble;
use minivm::cpu::{Fault, LoadError};
use minivm::session::{Command, Session};

fn session(src: &str) -> Session {
    Session::new(assemble(src).unwrap()).unwrap()
}

#[test]
fn new_session_starts_in_step_mode() {
    let s = session("HALT");
    assert!(s.step_mode);
    assert!(!s.exit);
    assert_eq!(s.selected, Some(0));
    assert!(s.register_logs.is_empty());
    assert!(matches!(Session::new(vec![0; 65]), Err(LoadError::ProgramTooLarge(65))));
}

#[test]
fn step_command_runs_one_cycle_and_logs() {
    let mut s = session("LVAL R0, 5\nLVAL R1, 3\nHALT");
    s.handle_command(Command::Step);
    assert_eq!(s.cpu.get_register(0), 5);
    assert_eq!(s.selected, Some(0));
    s.handle_command(Command::Step);
    assert_eq!(s.selected, Some(1));
    assert_eq!(s.register_logs.len(), 2);
    assert_eq!(s.register_logs[1], "  2 \u{2502}    5 \u{2502}    3 \u{2502}    0 \u{2502}    0 ");
}

#[test]
fn steps_stop_after_halt() {
    let mut s = session("HALT");
    s.step();
    assert!(s.cpu.halted);
    s.step();
    assert_eq!(s.cpu.pc, 1);
    assert_eq!(s.register_logs.len(), 1);
}

#[test]
fn tick_runs_only_out_of_step_mode() {
    let mut s = session("LVAL R0, 1\nHALT");
    s.tick();
    assert_eq!(s.cpu.pc, 0);
    s.handle_command(Command::ToggleStepMode);
    assert!(!s.step_mode);
    s.tick();
    s.tick();
    s.tick();
    assert!(s.cpu.halted);
    assert_eq!(s.cpu.pc, 2);
    s.handle_command(Command::Step);
    assert_eq!(s.register_logs.len(), 2);
}

#[test]
fn reset_reloads_the_program() {
    let mut s = session("LVAL R0, 1\nHALT");
    s.step();
    s.step();
    s.handle_command(Command::Reset);
    assert!(!s.cpu.halted);
    assert_eq!(s.cpu.pc, 0);
    assert_eq!(s.cpu.get_register(0), 0);
    assert!(s.register_logs.is_empty());
    assert_eq!(s.selected, None);
}

#[test]
fn scrolling_wraps_around_memory() {
    let mut s = session("HALT");
    s.handle_command(Command::ScrollUp);
    assert_eq!(s.selected, Some(63));
    s.handle_command(Command::ScrollDown);
    assert_eq!(s.selected, Some(0));
    s.handle_command(Command::ScrollDown);
    assert_eq!(s.selected, Some(1));
    s.selected = None;
    s.handle_command(Command::ScrollUp);
    assert_eq!(s.selected, Some(0));
}

#[test]
fn quit_sets_exit() {
    let mut s = session("HALT");
    s.handle_command(Command::Quit);
    assert!(s.exit);
}

#[test]
fn a_fault_stops_the_session() {
    let mut s = Session::new(vec![0x9000]).unwrap();
    s.step();
    assert_eq!(s.fault, Some(Fault::InvalidOpcode(9)));
    s.step();
    assert_eq!(s.cpu.pc, 1);
    assert!(s.register_logs.is_empty());
}
