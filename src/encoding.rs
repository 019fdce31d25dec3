//! The 16-bit instruction word: a 4-bit opcode, a 4-bit register selector
//! and an 8-bit operand, from the high bits to the low ones.
use vstd::prelude::*;

verus! {

/// The operations of the machine, each with its 4-bit code.
#[derive(Clone, Copy, Debug, PartialEq, Eq, Structural)]
pub enum OpCode {
    HALT,
    LVAL,
    LOAD,
    STORE,
    ADD,
    SUB,
    JMP,
    MOV,
}

/// The 4-bit code of an operation.
pub open spec fn code_of(op: OpCode) -> u8 {
    match op {
        OpCode::HALT => 0,
        OpCode::LVAL => 1,
        OpCode::LOAD => 2,
        OpCode::STORE => 3,
        OpCode::ADD => 4,
        OpCode::SUB => 5,
        OpCode::JMP => 6,
        OpCode::MOV => 7,
    }
}

/// The operation whose code is `code`, if there is one.
pub open spec fn opcode_of(code: u8) -> Option<OpCode> {
    if code == 0 {
        Some(OpCode::HALT)
    } else if code == 1 {
        Some(OpCode::LVAL)
    } else if code == 2 {
        Some(OpCode::LOAD)
    } else if code == 3 {
        Some(OpCode::STORE)
    } else if code == 4 {
        Some(OpCode::ADD)
    } else if code == 5 {
        Some(OpCode::SUB)
    } else if code == 6 {
        Some(OpCode::JMP)
    } else if code == 7 {
        Some(OpCode::MOV)
    } else {
        None
    }
}

/// The word that packs an opcode, the low four bits of a register selector
/// and an operand.
pub open spec fn encode_spec(code: u8, reg: u8, operand: u8) -> u16 {
    ((code as u16) << 12u16) | (((reg & 0xF) as u16) << 8u16) | (operand as u16)
}

/// The opcode field of a word.
pub open spec fn opcode_field(word: u16) -> u8 {
    ((word >> 12u16) & 0xF) as u8
}

/// The register field of a word.
pub open spec fn register_field(word: u16) -> u8 {
    ((word >> 8u16) & 0xF) as u8
}

/// The operand field of a word.
pub open spec fn operand_field(word: u16) -> u8 {
    (word & 0xFF) as u8
}

/// The three fields of a word.
pub open spec fn fields_of(word: u16) -> (u8, u8, u8) {
    (opcode_field(word), register_field(word), operand_field(word))
}

impl OpCode {
    /// The 4-bit code of this operation.
    pub fn code(self) -> (r: u8)
        ensures
            r == code_of(self),
            r < 8,
    {
        match self {
            OpCode::HALT => 0,
            OpCode::LVAL => 1,
            OpCode::LOAD => 2,
            OpCode::STORE => 3,
            OpCode::ADD => 4,
            OpCode::SUB => 5,
            OpCode::JMP => 6,
            OpCode::MOV => 7,
        }
    }

    /// The operation with the given code; `None` for a code above 7.
    pub fn u8_to_opcode(value: u8) -> (r: Option<OpCode>)
        ensures
            r == opcode_of(value),
            r is Some <==> value < 8,
            r matches Some(op) ==> code_of(op) == value,
    {
        match value {
            0 => Some(OpCode::HALT),
            1 => Some(OpCode::LVAL),
            2 => Some(OpCode::LOAD),
            3 => Some(OpCode::STORE),
            4 => Some(OpCode::ADD),
            5 => Some(OpCode::SUB),
            6 => Some(OpCode::JMP),
            7 => Some(OpCode::MOV),
            _ => None,
        }
    }
}

/// Packs an operation, a register selector and an operand into one word.
/// Only the low four bits of the selector are kept.
pub fn encode(op: OpCode, reg: u8, operand: u8) -> (r: u16)
    ensures
        r == encode_spec(code_of(op), reg, operand),
{
    ((op.code() as u16) << 12u16) | (((reg & 0xF) as u16) << 8u16) | (operand as u16)
}

/// Splits a word into its opcode, register and operand fields.
pub fn decode_fields(word: u16) -> (r: (u8, u8, u8))
    ensures
        r == fields_of(word),
        r.0 < 16,
        r.1 < 16,
{
    let r = (((word >> 12u16) & 0xF) as u8, ((word >> 8u16) & 0xF) as u8, (word & 0xFF) as u8);
    assert(((word >> 12u16) & 0xF) < 16 && ((word >> 8u16) & 0xF) < 16) by (bit_vector);
    r
}

/// Every operation is found again from its code.
pub proof fn lemma_opcode_round_trip(op: OpCode)
    ensures
        opcode_of(code_of(op)) == Some(op),
{
}

/// Decoding an encoded word gives back the opcode's code, the selector's
/// low four bits and the operand.
pub proof fn lemma_decode_encode(op: OpCode, reg: u8, operand: u8)
    ensures
        fields_of(encode_spec(code_of(op), reg, operand)) == (code_of(op), reg & 0xF, operand),
{
    let c = code_of(op);
    assert(c < 16);
    assert(opcode_field(encode_spec(c, reg, operand)) == c) by (bit_vector)
        requires
            c < 16,
    ;
    assert(register_field(encode_spec(c, reg, operand)) == reg & 0xF) by (bit_vector);
    assert(operand_field(encode_spec(c, reg, operand)) == operand) by (bit_vector);
}

} // verus!
