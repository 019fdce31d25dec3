use minivm::encoding::{decode_fields, encode, OpCode};

const ALL: [OpCode; 8] = [
    OpCode::HALT,
    OpCode::LVAL,
    OpCode::LOAD,
    OpCode::STORE,
    OpCode::ADD,
    OpCode::SUB,
    OpCode::JMP,
    OpCode::MOV,
];

#[test]
fn opcode_codes_round_trip() {
    for (i, op) in ALL.iter().enumerate() {
        assert_eq!(op.code(), i as u8);
        assert_eq!(OpCode::u8_to_opcode(op.code()), Some(*op));
    }
}

#[test]
fn unknown_opcode_codes_are_rejected() {
    for code in 8u8..=255 {
        assert_eq!(OpCode::u8_to_opcode(code), None);
    }
}

#[test]
fn encode_packs_fields_exactly() {
    assert_eq!(encode(OpCode::LVAL, 2, 0x2A), 0x122A);
    assert_eq!(encode(OpCode::MOV, 0x13, 0xFF), 0x73FF);
    assert_eq!(encode(OpCode::HALT, 0, 0), 0);
}

#[test]
fn decode_inverts_encode() {
    for op in ALL.iter() {
        for reg in 0u8..16 {
            for operand in [0u8, 1, 63, 64, 200, 255] {
                let w = encode(*op, reg, operand);
                assert_eq!(decode_fields(w), (op.code(), reg & 0xF, operand));
            }
        }
    }
}

#[test]
fn decode_splits_any_word() {
    assert_eq!(decode_fields(0xF3A5), (0xF, 0x3, 0xA5));
}
