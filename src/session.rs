//! The decisions of an interactive session around one machine: stepping by
//! hand or running freely, resetting, and moving the memory cursor. The
//! caller draws the state and reads the keys; each key arrives here as a
//! command.
use vstd::prelude::*;

use crate::cpu::{initial_state, register_row, Fault, LoadError, CPU, MEMORY_SIZE};

verus! {

/// What a user asks of a session.
#[derive(Clone, Copy, Debug, PartialEq, Eq, Structural)]
pub enum Command {
    /// Run one cycle, in step mode.
    Step,
    /// End the session.
    Quit,
    /// Reload the program into a fresh machine.
    Reset,
    /// Move the memory cursor one cell up, wrapping to the last cell.
    ScrollUp,
    /// Move the memory cursor one cell down, wrapping to the first cell.
    ScrollDown,
    /// Switch between stepping by hand and running freely.
    ToggleStepMode,
}

/// The memory cell of the instruction that ran last: one before the program
/// counter, or cell 0 when the counter is 0.
pub open spec fn last_instruction(pc: u16) -> usize {
    if pc == 0 {
        0
    } else {
        (pc - 1) as usize
    }
}

/// The cursor one cell up: the last cell from the first; the first cell when
/// there is no cursor.
pub open spec fn cursor_up(sel: Option<usize>) -> usize {
    match sel {
        None => 0,
        Some(i) => if i == 0 {
            (MEMORY_SIZE - 1) as usize
        } else {
            (i - 1) as usize
        },
    }
}

/// The cursor one cell down: the first cell from the last or beyond; the
/// first cell when there is no cursor.
pub open spec fn cursor_down(sel: Option<usize>) -> usize {
    match sel {
        None => 0,
        Some(i) => if i >= MEMORY_SIZE - 1 {
            0
        } else {
            (i + 1) as usize
        },
    }
}

/// A session: the machine, the program it was loaded with, the memory
/// cursor, one log row per cycle run, the mode, and the fault that stopped
/// the machine, if one did.
pub struct Session {
    pub cpu: CPU,
    pub program: Vec<u16>,
    pub selected: Option<usize>,
    pub register_logs: Vec<String>,
    pub step_mode: bool,
    pub exit: bool,
    pub fault: Option<Fault>,
}

impl Session {
    /// The program fits in memory.
    pub open spec fn wf(&self) -> bool {
        self.program@.len() <= MEMORY_SIZE
    }

    /// A session in step mode on a fresh machine loaded with `program`, with
    /// the cursor on cell 0. Fails when the program does not fit in memory.
    pub fn new(program: Vec<u16>) -> (r: Result<Session, LoadError>)
        ensures
            program@.len() > MEMORY_SIZE ==> r == Err::<Session, LoadError>(
                LoadError::ProgramTooLarge(program@.len() as usize),
            ),
            program@.len() <= MEMORY_SIZE ==> (r matches Ok(s) && {
                &&& s.wf()
                &&& s.cpu@ == initial_state(program@)
                &&& s.program@ == program@
                &&& s.selected == Some(0usize)
                &&& s.register_logs@.len() == 0
                &&& s.step_mode
                &&& !s.exit
                &&& s.fault is None
            }),
    {
        let cpu = CPU::new(program.as_slice())?;
        Ok(
            Session {
                cpu,
                program,
                selected: Some(0),
                register_logs: Vec::new(),
                step_mode: true,
                exit: false,
                fault: None,
            },
        )
    }

    /// Whether the machine can run another cycle: it is neither halted nor
    /// stopped by a fault.
    pub open spec fn can_run(&self) -> bool {
        !self.cpu.halted && self.fault is None
    }

    /// Runs one cycle of a machine that can run: on success logs the new
    /// register row, on a fault keeps the fault.
    fn run_cycle(&mut self)
        requires
            old(self).can_run(),
        ensures
            final(self).program == old(self).program,
            final(self).selected == old(self).selected,
            final(self).step_mode == old(self).step_mode,
            final(self).exit == old(self).exit,
            match old(self).cpu@.cycled() {
                Ok(t) => {
                    &&& final(self).cpu@ == t
                    &&& final(self).fault is None
                    &&& final(self).register_logs@.len() == old(self).register_logs@.len() + 1
                    &&& final(self).register_logs@.drop_last() == old(self).register_logs@
                    &&& final(self).register_logs@.last()@ == register_row(t)
                },
                Err(f) => {
                    &&& final(self).fault == Some(f)
                    &&& final(self).register_logs@ == old(self).register_logs@
                    &&& !final(self).cpu.halted
                },
            },
    {
        match self.cpu.step() {
            Ok(()) => {
                let row = self.cpu.log_registers();
                self.register_logs.push(row);
                assert(self.register_logs@.drop_last() =~= old(self).register_logs@);
            },
            Err(f) => {
                self.fault = Some(f);
            },
        }
    }

    /// Puts the cursor on the instruction that ran last.
    fn follow_pc(&mut self)
        ensures
            final(self).selected == Some(last_instruction(old(self).cpu.pc)),
            final(self).cpu == old(self).cpu,
            final(self).program == old(self).program,
            final(self).register_logs == old(self).register_logs,
            final(self).step_mode == old(self).step_mode,
            final(self).exit == old(self).exit,
            final(self).fault == old(self).fault,
    {
        let pc = self.cpu.pc;
        self.selected = Some(if pc == 0 { 0 } else { (pc - 1) as usize });
    }

    /// In step mode, runs one cycle of a machine that can run; in any mode,
    /// then puts the cursor on the instruction that ran last.
    pub fn step(&mut self)
        ensures
            final(self).program == old(self).program,
            final(self).step_mode == old(self).step_mode,
            final(self).exit == old(self).exit,
            final(self).selected == Some(last_instruction(final(self).cpu.pc)),
            !(old(self).step_mode && old(self).can_run()) ==> {
                &&& final(self).cpu == old(self).cpu
                &&& final(self).register_logs == old(self).register_logs
                &&& final(self).fault == old(self).fault
            },
            old(self).step_mode && old(self).can_run() ==> match old(self).cpu@.cycled() {
                Ok(t) => final(self).cpu@ == t && final(self).fault is None
                    && final(self).register_logs@.len() == old(self).register_logs@.len() + 1
                    && final(self).register_logs@.last()@ == register_row(t),
                Err(f) => final(self).fault == Some(f) && final(self).register_logs@ == old(
                    self,
                ).register_logs@,
            },
    {
        if self.step_mode && !self.cpu.halted && self.fault.is_none() {
            self.run_cycle();
        }
        self.follow_pc();
    }

    /// Out of step mode, runs one cycle of a machine that can run and puts
    /// the cursor on the instruction that ran last; else changes nothing.
    pub fn tick(&mut self)
        ensures
            final(self).program == old(self).program,
            final(self).step_mode == old(self).step_mode,
            final(self).exit == old(self).exit,
            !(!old(self).step_mode && old(self).can_run()) ==> *final(self) == *old(self),
            !old(self).step_mode && old(self).can_run() ==> {
                &&& final(self).selected == Some(last_instruction(final(self).cpu.pc))
                &&& match old(self).cpu@.cycled() {
                    Ok(t) => final(self).cpu@ == t && final(self).fault is None
                        && final(self).register_logs@.len() == old(self).register_logs@.len() + 1
                        && final(self).register_logs@.last()@ == register_row(t),
                    Err(f) => final(self).fault == Some(f) && final(self).register_logs@ == old(
                        self,
                    ).register_logs@,
                }
            },
    {
        if !self.step_mode && !self.cpu.halted && self.fault.is_none() {
            self.run_cycle();
            self.follow_pc();
        }
    }

    /// Reloads the program into a fresh machine, clears the log and the
    /// fault, and drops the cursor.
    pub fn reset_cpu(&mut self)
        requires
            old(self).wf(),
        ensures
            final(self).wf(),
            final(self).cpu@ == initial_state(old(self).program@),
            final(self).program == old(self).program,
            final(self).selected is None,
            final(self).register_logs@.len() == 0,
            final(self).fault is None,
            final(self).step_mode == old(self).step_mode,
            final(self).exit == old(self).exit,
    {
        match CPU::new(self.program.as_slice()) {
            Ok(cpu) => {
                self.cpu = cpu;
            },
            Err(_) => {},
        }
        self.register_logs = Vec::new();
        self.selected = None;
        self.fault = None;
    }

    /// Moves the memory cursor one cell up, wrapping to the last cell.
    pub fn scroll_memory_up(&mut self)
        ensures
            final(self).selected == Some(cursor_up(old(self).selected)),
            final(self).cpu == old(self).cpu,
            final(self).program == old(self).program,
            final(self).register_logs == old(self).register_logs,
            final(self).step_mode == old(self).step_mode,
            final(self).exit == old(self).exit,
            final(self).fault == old(self).fault,
    {
        let i = match self.selected {
            Some(selected) => if selected == 0 {
                MEMORY_SIZE - 1
            } else {
                selected - 1
            },
            None => 0,
        };
        self.selected = Some(i);
    }

    /// Moves the memory cursor one cell down, wrapping to the first cell.
    pub fn scroll_memory_down(&mut self)
        ensures
            final(self).selected == Some(cursor_down(old(self).selected)),
            final(self).cpu == old(self).cpu,
            final(self).program == old(self).program,
            final(self).register_logs == old(self).register_logs,
            final(self).step_mode == old(self).step_mode,
            final(self).exit == old(self).exit,
            final(self).fault == old(self).fault,
    {
        let i = match self.selected {
            Some(selected) => if selected >= MEMORY_SIZE - 1 {
                0
            } else {
                selected + 1
            },
            None => 0,
        };
        self.selected = Some(i);
    }

    /// Carries out one command.
    pub fn handle_command(&mut self, cmd: Command)
        requires
            old(self).wf(),
        ensures
            final(self).wf(),
            final(self).program == old(self).program,
            cmd == Command::Quit ==> final(self).exit && final(self).cpu == old(self).cpu,
            cmd == Command::ToggleStepMode ==> final(self).step_mode == !old(self).step_mode
                && final(self).cpu == old(self).cpu,
            cmd == Command::Reset ==> final(self).cpu@ == initial_state(old(self).program@)
                && final(self).register_logs@.len() == 0 && final(self).fault is None,
            cmd == Command::ScrollUp ==> final(self).selected == Some(cursor_up(old(self).selected))
                && final(self).cpu == old(self).cpu,
            cmd == Command::ScrollDown ==> final(self).selected == Some(
                cursor_down(old(self).selected),
            ) && final(self).cpu == old(self).cpu,
            cmd == Command::Step ==> final(self).selected == Some(
                last_instruction(final(self).cpu.pc),
            ) && (old(self).step_mode && old(self).can_run() ==> match old(self).cpu@.cycled() {
                Ok(t) => final(self).cpu@ == t,
                Err(f) => final(self).fault == Some(f),
            }) && (!(old(self).step_mode && old(self).can_run()) ==> final(self).cpu == old(
                self,
            ).cpu),
    {
        match cmd {
            Command::Step => self.step(),
            Command::Quit => {
                self.exit = true;
            },
            Command::Reset => self.reset_cpu(),
            Command::ScrollUp => self.scroll_memory_up(),
            Command::ScrollDown => self.scroll_memory_down(),
            Command::ToggleStepMode => {
                self.step_mode = !self.step_mode;
            },
        }
    }
}

} // verus!
