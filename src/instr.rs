//! The instruction set: its values, its binary encoding, and the decoder.
//!
//! Every instruction starts with an opcode byte that selects its family; the
//! operands follow as big-endian fields.
//!
//! | opcode        | instruction                       | bytes |
//! |---------------|-----------------------------------|-------|
//! | `0x00`        | print syscall: address            | 3     |
//! | `0x10`        | move literal: i32 literal, dest   | 7     |
//! | `0x11..=0x1C` | ALU operation: src, dest          | 5     |
//! | `0x1D`        | move from extra register: dest    | 3     |
//! | `0x20..=0x23` | jump: signed 16-bit offset        | 3     |
use vstd::prelude::*;

use crate::bytes::{
    be_i16, be_i32, be_u16, i16_be, i32_be, i32_byte, lemma_i16_round_trip, lemma_i32_round_trip,
    lemma_u16_round_trip, read_i16, read_i32, read_u16, u16_be,
};

verus! {

pub const OP_PRINT: u8 = 0x00;
pub const OP_MOV: u8 = 0x10;
pub const ALU_ASSIGN: u8 = 0x11;
pub const ALU_ADD: u8 = 0x12;
pub const ALU_SUB: u8 = 0x13;
pub const ALU_AND: u8 = 0x14;
pub const ALU_OR: u8 = 0x15;
pub const ALU_XOR: u8 = 0x16;
pub const ALU_CMP: u8 = 0x17;
pub const ALU_SLL: u8 = 0x18;
pub const ALU_SRL: u8 = 0x19;
pub const ALU_SRA: u8 = 0x1A;
pub const ALU_MUL: u8 = 0x1B;
pub const ALU_DIV: u8 = 0x1C;
/// Copies the extra register into the destination; encoded without a source.
pub const ALU_MOVE_EXTRA: u8 = 0x1D;
pub const JMP_ALWAYS: u8 = 0x20;
pub const JMP_NEGATIVE: u8 = 0x21;
pub const JMP_NEGATIVE_OR_ZERO: u8 = 0x22;
pub const JMP_ZERO: u8 = 0x23;

/// A request to the host that an instruction makes.
#[derive(Debug, Clone, Copy, PartialEq, Eq, Structural)]
pub enum SysCallInstr {
    /// Print the zero-terminated string that starts at this memory address.
    Print(u16),
}

/// One decoded instruction.
#[derive(Debug, Clone, Copy, PartialEq, Eq, Structural)]
pub enum Instruction {
    Mov { literal: i32, dest: u16 },
    Alu { alu_op: u8, src: u16, dest: u16 },
    Jump { jmp_op: u8, offset: i16 },
    SysCall(SysCallInstr),
}

/// Why a byte stream does not start with a well-formed instruction.
#[derive(Debug, Clone, Copy, PartialEq, Eq, Structural)]
pub enum DecodeError {
    NoOpcode,
    InvalidMov,
    InvalidAlu,
    InvalidXR0Move,
    InvalidJump,
    InvalidSysCall,
    UnknownOpcode(u8),
}

/// Whether `op` is the opcode of some instruction.
pub open spec fn is_opcode(op: u8) -> bool {
    op == OP_PRINT || op == OP_MOV || (ALU_ASSIGN <= op <= ALU_MOVE_EXTRA) || (JMP_ALWAYS <= op
        <= JMP_ZERO)
}

/// The number of bytes, opcode included, of an instruction with opcode `op`.
pub open spec fn encoded_len(op: u8) -> int {
    if op == OP_MOV {
        7
    } else if ALU_ASSIGN <= op < ALU_MOVE_EXTRA {
        5
    } else {
        3
    }
}

/// The error for a recognized opcode whose operands are cut short.
pub open spec fn truncated(op: u8) -> DecodeError {
    if op == OP_PRINT {
        DecodeError::InvalidSysCall
    } else if op == OP_MOV {
        DecodeError::InvalidMov
    } else if op == ALU_MOVE_EXTRA {
        DecodeError::InvalidXR0Move
    } else if ALU_ASSIGN <= op < ALU_MOVE_EXTRA {
        DecodeError::InvalidAlu
    } else {
        DecodeError::InvalidJump
    }
}

/// The instruction whose encoding starts `b`, given a recognized opcode and
/// enough operand bytes.
pub open spec fn operands(b: Seq<u8>) -> Instruction {
    let op = b[0];
    if op == OP_PRINT {
        Instruction::SysCall(SysCallInstr::Print(be_u16(b[1], b[2])))
    } else if op == OP_MOV {
        Instruction::Mov { literal: be_i32(b[1], b[2], b[3], b[4]), dest: be_u16(b[5], b[6]) }
    } else if op == ALU_MOVE_EXTRA {
        Instruction::Alu { alu_op: op, src: 0, dest: be_u16(b[1], b[2]) }
    } else if ALU_ASSIGN <= op < ALU_MOVE_EXTRA {
        Instruction::Alu { alu_op: op, src: be_u16(b[1], b[2]), dest: be_u16(b[3], b[4]) }
    } else {
        Instruction::Jump { jmp_op: op, offset: be_i16(b[1], b[2]) }
    }
}

/// The instruction at the front of `b` and the number of bytes it takes, or
/// why there is none.
pub open spec fn decode(b: Seq<u8>) -> Result<(Instruction, int), DecodeError> {
    if b.len() == 0 {
        Err(DecodeError::NoOpcode)
    } else if !is_opcode(b[0]) {
        Err(DecodeError::UnknownOpcode(b[0]))
    } else if b.len() < encoded_len(b[0]) {
        Err(truncated(b[0]))
    } else {
        Ok((operands(b), encoded_len(b[0])))
    }
}

/// Whether `i` is the result of decoding some bytes: its opcode belongs to its
/// family, and a move from the extra register names no source.
pub open spec fn is_encodable(i: Instruction) -> bool {
    match i {
        Instruction::Mov { .. } => true,
        Instruction::Alu { alu_op, src, .. } => (ALU_ASSIGN <= alu_op < ALU_MOVE_EXTRA) || (alu_op
            == ALU_MOVE_EXTRA && src == 0),
        Instruction::Jump { jmp_op, .. } => JMP_ALWAYS <= jmp_op <= JMP_ZERO,
        Instruction::SysCall(_) => true,
    }
}

/// The bytes that encode `i`.
pub open spec fn encode(i: Instruction) -> Seq<u8> {
    match i {
        Instruction::SysCall(SysCallInstr::Print(addr)) => seq![OP_PRINT] + u16_be(addr),
        Instruction::Mov { literal, dest } => seq![OP_MOV] + i32_be(literal) + u16_be(dest),
        Instruction::Alu { alu_op, src, dest } => if alu_op == ALU_MOVE_EXTRA {
            seq![alu_op] + u16_be(dest)
        } else {
            seq![alu_op] + u16_be(src) + u16_be(dest)
        },
        Instruction::Jump { jmp_op, offset } => seq![jmp_op] + i16_be(offset),
    }
}

/// Decoding then encoding gives back the bytes that were decoded, and what
/// the decoder returns is always encodable.
pub proof fn lemma_decode_then_encode(b: Seq<u8>)
    requires
        decode(b) is Ok,
    ensures
        encode(decode(b)->Ok_0.0) == b.subrange(0, decode(b)->Ok_0.1),
        is_encodable(decode(b)->Ok_0.0),
{
    let op = b[0];
    if op == OP_PRINT {
        lemma_u16_round_trip(0, b[1], b[2]);
    } else if op == OP_MOV {
        lemma_i32_round_trip(0, b[1], b[2], b[3], b[4]);
        lemma_u16_round_trip(0, b[5], b[6]);
    } else if op == ALU_MOVE_EXTRA {
        lemma_u16_round_trip(0, b[1], b[2]);
    } else if ALU_ASSIGN <= op < ALU_MOVE_EXTRA {
        lemma_u16_round_trip(0, b[1], b[2]);
        lemma_u16_round_trip(0, b[3], b[4]);
    } else {
        lemma_i16_round_trip(0, b[1], b[2]);
    }
    assert(encode(decode(b)->Ok_0.0) =~= b.subrange(0, decode(b)->Ok_0.1));
}

/// Encoding an encodable instruction and decoding the result, whatever bytes
/// follow, gives back the instruction and the length of its encoding.
pub proof fn lemma_encode_then_decode(i: Instruction, rest: Seq<u8>)
    requires
        is_encodable(i),
    ensures
        decode(encode(i) + rest) == Ok::<(Instruction, int), DecodeError>(
            (i, encode(i).len() as int),
        ),
{
    let b = encode(i) + rest;
    match i {
        Instruction::SysCall(SysCallInstr::Print(addr)) => {
            lemma_u16_round_trip(addr, 0, 0);
        },
        Instruction::Mov { literal, dest } => {
            lemma_i32_round_trip(literal, 0, 0, 0, 0);
            lemma_u16_round_trip(dest, 0, 0);
        },
        Instruction::Alu { alu_op, src, dest } => {
            lemma_u16_round_trip(src, 0, 0);
            lemma_u16_round_trip(dest, 0, 0);
        },
        Instruction::Jump { jmp_op, offset } => {
            lemma_i16_round_trip(offset, 0, 0);
        },
    }
    assert(b[0] == encode(i)[0]);
}

/// Every byte outside the opcode table is refused as an unknown opcode that
/// carries that byte.
pub proof fn lemma_unknown_opcode(b: Seq<u8>)
    requires
        b.len() > 0,
        !is_opcode(b[0]),
    ensures
        decode(b) == Err::<(Instruction, int), DecodeError>(DecodeError::UnknownOpcode(b[0])),
{
}

impl Instruction {
    /// The bytes that encode this instruction.
    pub fn encode_instr(&self) -> (r: Vec<u8>)
        ensures
            r@ == encode(*self),
    {
        let mut out: Vec<u8> = Vec::new();
        match *self {
            Instruction::SysCall(SysCallInstr::Print(addr)) => {
                out.push(OP_PRINT);
                push_u16(&mut out, addr);
            },
            Instruction::Mov { literal, dest } => {
                out.push(OP_MOV);
                let mut k: usize = 0;
                while k < 4
                    invariant
                        k <= 4,
                        out@ == seq![OP_MOV] + i32_be(literal).subrange(0, k as int),
                    decreases 4 - k,
                {
                    out.push(i32_byte(literal, k));
                    assert(i32_be(literal).subrange(0, k + 1) =~= i32_be(literal).subrange(
                        0,
                        k as int,
                    ).push(i32_be(literal)[k as int]));
                    k = k + 1;
                }
                assert(i32_be(literal).subrange(0, 4) =~= i32_be(literal));
                push_u16(&mut out, dest);
            },
            Instruction::Alu { alu_op, src, dest } => {
                out.push(alu_op);
                if alu_op != ALU_MOVE_EXTRA {
                    push_u16(&mut out, src);
                }
                push_u16(&mut out, dest);
            },
            Instruction::Jump { jmp_op, offset } => {
                out.push(jmp_op);
                let u: u16 = if offset < 0 {
                    (offset as i32 + 0x1_0000) as u16
                } else {
                    offset as u16
                };
                push_u16(&mut out, u);
            },
        }
        assert(out@ =~= encode(*self));
        out
    }

    /// Decodes the instruction at the front of `bytes` and returns it with the
    /// bytes that follow it.
    pub fn decode_instr(bytes: &[u8]) -> (r: Result<(Instruction, &[u8]), DecodeError>)
        ensures
            match decode(bytes@) {
                Ok((i, n)) => r is Ok && r->Ok_0.0 == i && r->Ok_0.1@ == bytes@.subrange(
                    n,
                    bytes@.len() as int,
                ),
                Err(e) => r == Err::<(Instruction, &[u8]), DecodeError>(e),
            },
    {
        if bytes.len() == 0 {
            return Err(DecodeError::NoOpcode);
        }
        let op = bytes[0];
        let n = bytes.len();
        if op == OP_PRINT {
            if n < 3 {
                Err(DecodeError::InvalidSysCall)
            } else {
                let addr = read_u16(bytes[1], bytes[2]);
                Ok((Instruction::SysCall(SysCallInstr::Print(addr)), &bytes[3..n]))
            }
        } else if op == OP_MOV {
            if n < 7 {
                Err(DecodeError::InvalidMov)
            } else {
                let literal = read_i32(bytes[1], bytes[2], bytes[3], bytes[4]);
                let dest = read_u16(bytes[5], bytes[6]);
                Ok((Instruction::Mov { literal, dest }, &bytes[7..n]))
            }
        } else if ALU_ASSIGN <= op && op < ALU_MOVE_EXTRA {
            if n < 5 {
                Err(DecodeError::InvalidAlu)
            } else {
                let src = read_u16(bytes[1], bytes[2]);
                let dest = read_u16(bytes[3], bytes[4]);
                Ok((Instruction::Alu { alu_op: op, src, dest }, &bytes[5..n]))
            }
        } else if op == ALU_MOVE_EXTRA {
            if n < 3 {
                Err(DecodeError::InvalidXR0Move)
            } else {
                let dest = read_u16(bytes[1], bytes[2]);
                Ok((Instruction::Alu { alu_op: op, src: 0, dest }, &bytes[3..n]))
            }
        } else if JMP_ALWAYS <= op && op <= JMP_ZERO {
            if n < 3 {
                Err(DecodeError::InvalidJump)
            } else {
                let offset = read_i16(bytes[1], bytes[2]);
                Ok((Instruction::Jump { jmp_op: op, offset }, &bytes[3..n]))
            }
        } else {
            Err(DecodeError::UnknownOpcode(op))
        }
    }
}

/// Appends the two bytes of `v`, most significant first.
fn push_u16(out: &mut Vec<u8>, v: u16)
    ensures
        final(out)@ == old(out)@ + u16_be(v),
{
    out.push((v / 0x100) as u8);
    out.push((v % 0x100) as u8);
    assert(final(out)@ =~= old(out)@ + u16_be(v));
}

} // verus!
