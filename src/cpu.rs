//! The register machine: four registers, a program counter, an instruction
//! register and 64 words of memory, driven one fetch, decode and execute at a
//! time by its caller.
use vstd::prelude::*;

use crate::encoding::{code_of, decode_fields, fields_of, opcode_of, OpCode};
use crate::render::{push_right_aligned, right_aligned};
use vstd::string::StringExecFns;

verus! {

/// The number of words of memory.
pub const MEMORY_SIZE: usize = 64;

/// Why the machine cannot go on.
#[derive(Clone, Copy, Debug, PartialEq, Eq, Structural)]
pub enum Fault {
    /// The program counter does not name a memory cell.
    PcOutOfRange(u16),
    /// The opcode field holds no known operation.
    InvalidOpcode(u8),
    /// A load or store names an address past the end of memory.
    AddressOutOfRange(u8),
}

/// Why a program cannot be loaded.
#[derive(Clone, Copy, Debug, PartialEq, Eq, Structural)]
pub enum LoadError {
    /// The program has more words than memory holds; the count is given.
    ProgramTooLarge(usize),
    /// A program image has an odd number of bytes; the count is given.
    OddByteCount(usize),
}

/// The state of the machine as a mathematical value.
pub ghost struct CpuState {
    pub registers: Seq<u16>,
    pub pc: u16,
    pub ir: u16,
    pub memory: Seq<u16>,
    pub halted: bool,
}

/// Sum modulo 2^16.
pub open spec fn wrap_add(a: u16, b: u16) -> u16 {
    ((a as int + b as int) % 0x10000) as u16
}

/// Difference modulo 2^16.
pub open spec fn wrap_sub(a: u16, b: u16) -> u16 {
    ((a as int - b as int + 0x10000) % 0x10000) as u16
}

/// The register that a selector names: only its low two bits count.
pub open spec fn reg_index(sel: u8) -> int {
    sel as int % 4
}

impl CpuState {
    /// Four registers and the full memory.
    pub open spec fn wf(self) -> bool {
        self.registers.len() == 4 && self.memory.len() == MEMORY_SIZE
    }

    /// The value of the register that a selector names.
    pub open spec fn reg(self, sel: u8) -> u16 {
        self.registers[reg_index(sel)]
    }

    /// This state with the register that `sel` names set to `v`.
    pub open spec fn with_reg(self, sel: u8, v: u16) -> CpuState {
        let i = reg_index(sel);
        let r = self.registers;
        CpuState {
            registers: seq![
                if i == 0 { v } else { r[0] },
                if i == 1 { v } else { r[1] },
                if i == 2 { v } else { r[2] },
                if i == 3 { v } else { r[3] },
            ],
            ..self
        }
    }

    /// The state after a fetch, or the fault that stops it.
    pub open spec fn fetched(self) -> Result<CpuState, Fault> {
        if self.pc as int >= MEMORY_SIZE {
            Err(Fault::PcOutOfRange(self.pc))
        } else {
            Ok(CpuState { ir: self.memory[self.pc as int], pc: wrap_add(self.pc, 1), ..self })
        }
    }

    /// The state after executing one decoded instruction, or the fault that
    /// stops it.
    pub open spec fn executed(self, opcode: u8, reg: u8, operand: u8) -> Result<CpuState, Fault> {
        match opcode_of(opcode) {
            None => Err(Fault::InvalidOpcode(opcode)),
            Some(op) => match op {
                OpCode::HALT => Ok(CpuState { halted: true, ..self }),
                OpCode::LVAL => Ok(self.with_reg(reg, operand as u16)),
                OpCode::LOAD => if operand as int >= MEMORY_SIZE {
                    Err(Fault::AddressOutOfRange(operand))
                } else {
                    Ok(self.with_reg(reg, self.memory[operand as int]))
                },
                OpCode::STORE => if operand as int >= MEMORY_SIZE {
                    Err(Fault::AddressOutOfRange(operand))
                } else {
                    Ok(CpuState { memory: self.memory.update(operand as int, self.reg(reg)), ..self })
                },
                OpCode::ADD => Ok(self.with_reg(reg, wrap_add(self.reg(reg), self.reg(operand)))),
                OpCode::SUB => Ok(self.with_reg(reg, wrap_sub(self.reg(reg), self.reg(operand)))),
                OpCode::JMP => Ok(CpuState { pc: operand as u16, ..self }),
                OpCode::MOV => Ok(self.with_reg(reg, self.reg(operand))),
            },
        }
    }

    /// The state after one full cycle (fetch, decode, execute), or the fault
    /// that stops it.
    pub open spec fn cycled(self) -> Result<CpuState, Fault> {
        match self.fetched() {
            Err(f) => Err(f),
            Ok(s) => {
                let (op, reg, operand) = fields_of(s.ir);
                s.executed(op, reg, operand)
            },
        }
    }
}

/// The initial state for a program that fits in memory: zeroed registers,
/// the program at the low addresses and zeros after it.
pub open spec fn initial_state(program: Seq<u16>) -> CpuState {
    CpuState {
        registers: seq![0u16, 0u16, 0u16, 0u16],
        pc: 0,
        ir: 0,
        memory: Seq::new(
            MEMORY_SIZE as nat,
            |i: int|
                if i < program.len() {
                    program[i]
                } else {
                    0u16
                },
        ),
        halted: false,
    }
}

/// The column separator of a register log row.
pub open spec fn column_bar() -> Seq<char> {
    seq![' ', '\u{2502}', ' ']
}

/// One row of the register log: the program counter right-aligned in two
/// columns, then each register right-aligned in four, separated by bars.
pub open spec fn register_row(s: CpuState) -> Seq<char> {
    seq![' '] + right_aligned(s.pc as nat, 2) + column_bar() + right_aligned(s.registers[0] as nat, 4)
        + column_bar() + right_aligned(s.registers[1] as nat, 4) + column_bar() + right_aligned(
        s.registers[2] as nat,
        4,
    ) + column_bar() + right_aligned(s.registers[3] as nat, 4) + seq![' ']
}

/// The machine.
pub struct CPU {
    pub r0: u16,
    pub r1: u16,
    pub r2: u16,
    pub r3: u16,
    pub pc: u16,
    pub ir: u16,
    pub memory: [u16; 64],
    pub halted: bool,
}

impl View for CPU {
    type V = CpuState;

    open spec fn view(&self) -> CpuState {
        CpuState {
            registers: seq![self.r0, self.r1, self.r2, self.r3],
            pc: self.pc,
            ir: self.ir,
            memory: self.memory@,
            halted: self.halted,
        }
    }
}

impl Default for CPU {
    fn default() -> (r: CPU)
        ensures
            r@ == initial_state(Seq::empty()),
    {
        let r = CPU { r0: 0, r1: 0, r2: 0, r3: 0, pc: 0, ir: 0, memory: [0u16; 64], halted: false };
        assert(r@.memory =~= initial_state(Seq::empty()).memory);
        assert(r@.registers =~= initial_state(Seq::empty()).registers);
        r
    }
}

impl CPU {
    /// A machine with the program at the low addresses of zeroed memory, or
    /// an error when the program has more words than memory holds.
    pub fn new(program: &[u16]) -> (r: Result<CPU, LoadError>)
        ensures
            program@.len() <= MEMORY_SIZE ==> (r matches Ok(c) && c@ == initial_state(program@)),
            program@.len() > MEMORY_SIZE ==> r == Err::<CPU, LoadError>(
                LoadError::ProgramTooLarge(program@.len() as usize),
            ),
    {
        if program.len() > MEMORY_SIZE {
            return Err(LoadError::ProgramTooLarge(program.len()));
        }
        let mut cpu = CPU::default();
        let mut i: usize = 0;
        while i < program.len()
            invariant
                program@.len() <= MEMORY_SIZE,
                i <= program@.len(),
                cpu@.registers == initial_state(program@).registers,
                cpu.pc == 0,
                cpu.ir == 0,
                !cpu.halted,
                cpu@.memory.len() == MEMORY_SIZE,
                forall|j: int| 0 <= j < i ==> cpu@.memory[j] == program@[j],
                forall|j: int| i <= j < MEMORY_SIZE ==> cpu@.memory[j] == 0u16,
            decreases program@.len() - i,
        {
            cpu.memory[i] = program[i];
            i = i + 1;
        }
        assert(cpu@.memory =~= initial_state(program@).memory);
        Ok(cpu)
    }

    /// Loads the word at the program counter into the instruction register
    /// and advances the counter, wrapping at 2^16. Fails, changing nothing,
    /// when the counter is past the end of memory.
    pub fn fetch(&mut self) -> (r: Result<(), Fault>)
        ensures
            match old(self)@.fetched() {
                Ok(s) => r is Ok && final(self)@ == s,
                Err(f) => r == Err::<(), Fault>(f) && final(self)@ == old(self)@,
            },
    {
        if self.pc as usize >= MEMORY_SIZE {
            return Err(Fault::PcOutOfRange(self.pc));
        }
        self.ir = self.memory[self.pc as usize];
        self.pc = self.pc.wrapping_add(1);
        Ok(())
    }

    /// The opcode, register and operand fields of the instruction register.
    pub fn decode(&self) -> (r: (u8, u8, u8))
        ensures
            r == fields_of(self.ir),
    {
        decode_fields(self.ir)
    }

    /// Carries out one decoded instruction. Fails, changing nothing, on an
    /// unknown opcode and on a load or store past the end of memory.
    pub fn execute(&mut self, opcode: u8, register: u8, operand: u8) -> (r: Result<(), Fault>)
        ensures
            match old(self)@.executed(opcode, register, operand) {
                Ok(s) => r is Ok && final(self)@ == s,
                Err(f) => r == Err::<(), Fault>(f) && final(self)@ == old(self)@,
            },
    {
        let op = match OpCode::u8_to_opcode(opcode) {
            Some(op) => op,
            None => return Err(Fault::InvalidOpcode(opcode)),
        };
        match op {
            OpCode::HALT => {
                self.halted = true;
            },
            OpCode::LVAL => {
                *self.get_register_mut(register) = operand as u16;
            },
            OpCode::LOAD => {
                if operand as usize >= MEMORY_SIZE {
                    return Err(Fault::AddressOutOfRange(operand));
                }
                let value = self.memory[operand as usize];
                *self.get_register_mut(register) = value;
            },
            OpCode::STORE => {
                if operand as usize >= MEMORY_SIZE {
                    return Err(Fault::AddressOutOfRange(operand));
                }
                let value = self.get_register(register);
                self.memory[operand as usize] = value;
            },
            OpCode::ADD => {
                let dest = self.get_register(register);
                let src = self.get_register(operand);
                *self.get_register_mut(register) = dest.wrapping_add(src);
            },
            OpCode::SUB => {
                let dest = self.get_register(register);
                let src = self.get_register(operand);
                *self.get_register_mut(register) = dest.wrapping_sub(src);
            },
            OpCode::JMP => {
                self.pc = operand as u16;
            },
            OpCode::MOV => {
                let src = self.get_register(operand);
                *self.get_register_mut(register) = src;
            },
        }
        Ok(())
    }

    /// One full cycle: fetch, decode, execute. A halted machine is left as
    /// it is.
    pub fn step(&mut self) -> (r: Result<(), Fault>)
        ensures
            old(self).halted ==> r is Ok && final(self)@ == old(self)@,
            !old(self).halted ==> match old(self)@.cycled() {
                Ok(s) => r is Ok && final(self)@ == s,
                Err(f) => {
                    &&& r == Err::<(), Fault>(f)
                    &&& final(self)@ == match old(self)@.fetched() {
                        Ok(s) => s,
                        Err(_) => old(self)@,
                    }
                },
            },
    {
        if self.halted {
            return Ok(());
        }
        self.fetch()?;
        let (opcode, register, operand) = self.decode();
        self.execute(opcode, register, operand)
    }

    /// The value of the register that a selector names; only the low two
    /// bits of the selector count.
    pub fn get_register(&self, index: u8) -> (r: u16)
        ensures
            r == self@.reg(index),
    {
        let i = index & 3;
        assert(i == index % 4) by (bit_vector)
            requires
                i == index & 3,
        ;
        if i == 0 {
            self.r0
        } else if i == 1 {
            self.r1
        } else if i == 2 {
            self.r2
        } else {
            self.r3
        }
    }

    /// A mutable reference to the register that a selector names; only the
    /// low two bits of the selector count.
    pub fn get_register_mut(&mut self, index: u8) -> (r: &mut u16)
        ensures
            *r == old(self)@.reg(index),
            final(self)@ == old(self)@.with_reg(index, *final(r)),
    {
        let i = index & 3;
        assert(i == index % 4) by (bit_vector)
            requires
                i == index & 3,
        ;
        if i == 0 {
            &mut self.r0
        } else if i == 1 {
            &mut self.r1
        } else if i == 2 {
            &mut self.r2
        } else {
            &mut self.r3
        }
    }

    /// The four registers, R0 first.
    pub fn get_all_registers(&self) -> (r: [u16; 4])
        ensures
            r@ == self@.registers,
    {
        let r = [self.r0, self.r1, self.r2, self.r3];
        assert(r@ =~= self@.registers);
        r
    }

    /// One row of the register log for the current state.
    pub fn log_registers(&self) -> (r: String)
        ensures
            r@ == register_row(self@),
    {
        proof {
            reveal_strlit(" ");
            reveal_strlit(" \u{2502} ");
        }
        let mut s = String::new();
        s.append(" ");
        push_right_aligned(&mut s, self.pc, 2);
        s.append(" \u{2502} ");
        push_right_aligned(&mut s, self.r0, 4);
        s.append(" \u{2502} ");
        push_right_aligned(&mut s, self.r1, 4);
        s.append(" \u{2502} ");
        push_right_aligned(&mut s, self.r2, 4);
        s.append(" \u{2502} ");
        push_right_aligned(&mut s, self.r3, 4);
        s.append(" ");
        assert(s@ =~= register_row(self@));
        s
    }
}

/// A selector and its low two bits name the same register, for reading and
/// for writing.
pub proof fn lemma_selector_alias(s: CpuState, sel: u8, v: u16)
    ensures
        s.reg(sel) == s.reg(sel & 3),
        s.with_reg(sel, v) == s.with_reg(sel & 3, v),
{
    assert(sel & 3 == sel % 4 && (sel & 3) % 4 == sel % 4) by (bit_vector);
}

/// LVAL, LOAD and MOV change the register that the selector names and
/// nothing else; STORE changes the addressed memory cell and nothing else.
pub proof fn lemma_single_target(s: CpuState, opcode: u8, reg: u8, operand: u8)
    requires
        s.wf(),
        opcode == code_of(OpCode::LVAL) || opcode == code_of(OpCode::LOAD)
            || opcode == code_of(OpCode::STORE) || opcode == code_of(OpCode::MOV),
        s.executed(opcode, reg, operand) is Ok,
    ensures
        ({
            let t = s.executed(opcode, reg, operand)->Ok_0;
            &&& t.wf()
            &&& t.pc == s.pc
            &&& t.ir == s.ir
            &&& t.halted == s.halted
            &&& opcode == code_of(OpCode::STORE) ==> {
                &&& t.registers == s.registers
                &&& t.memory[operand as int] == s.reg(reg)
                &&& forall|j: int| 0 <= j < MEMORY_SIZE && j != operand ==> t.memory[j] == s.memory[j]
            }
            &&& opcode != code_of(OpCode::STORE) ==> {
                &&& t.memory == s.memory
                &&& t.registers[reg_index(reg)] == match opcode_of(opcode) {
                    Some(OpCode::LVAL) => operand as u16,
                    Some(OpCode::LOAD) => s.memory[operand as int],
                    _ => s.reg(operand),
                }
                &&& forall|j: int| 0 <= j < 4 && j != reg_index(reg) ==> t.registers[j] == s.registers[j]
            }
        }),
{
}

/// HALT sets the halted flag and changes nothing else.
pub proof fn lemma_halt_only_halts(s: CpuState, reg: u8, operand: u8)
    ensures
        s.executed(code_of(OpCode::HALT), reg, operand) == Ok::<CpuState, Fault>(
            CpuState { halted: true, ..s },
        ),
{
}

/// Fetching and executing keep four registers and the full memory.
pub proof fn lemma_cycle_keeps_shape(s: CpuState)
    requires
        s.wf(),
    ensures
        s.fetched() matches Ok(t) ==> t.wf(),
        forall|op: u8, reg: u8, operand: u8| #[trigger] s.executed(op, reg, operand) matches Ok(t) ==> t.wf(),
        s.cycled() matches Ok(t) ==> t.wf(),
{
}

} // verus!
