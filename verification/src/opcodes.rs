//! The instruction set: operation codes and the fixed bit fields of an
//! instruction word.
//!
//! An instruction is a 32-bit word. Bits 31..25 select the operation; the
//! operands follow from the top down, five bits for a register, a core or an
//! interrupt kind, and twenty or twenty-five bits for an immediate. Bits that
//! a layout leaves unused are ignored.

use vstd::prelude::*;

use crate::cpu::CpuErrorType;

verus! {

/// The operations of the machine.
#[allow(non_camel_case_types)]
#[derive(Clone, Copy, Debug, PartialEq, Eq, Structural)]
pub enum OpCode {
    /// No effect.
    NOOP,
    /// `rde(5) imm(20)`: load the immediate, zero-extended, into `rde`.
    LOAD_IMM,
    /// `rde(5) imm(20)`: load the immediate into the upper twenty bits of `rde`.
    LDUP_IMM,
    /// `rs1(5) imm(20)`: store the low byte of `rs1` at the immediate address.
    STOR_IMM,
    /// `rde(5) rs1(5)`: load the byte at the address held in `rs1` into `rde`.
    LOAD_BYTE,
    /// `rs1(5) rs2(5)`: store the low byte of `rs2` at the address held in `rs1`.
    STOR_BYTE,
    /// `imm(25)`: jump to the immediate address.
    JUMP_IMM,
    /// `rs1(5)`: jump to the address held in `rs1`.
    JUMP_REG,
    /// `imm(25)`: push the program counter, then jump to the immediate address.
    BRAN_IMM,
    /// `rs1(5)`: push the program counter, then jump to the address held in `rs1`.
    BRAN_REG,
    /// `rde(5) rs1(5) rs2(5)`: unsigned addition.
    ADD,
    /// `rde(5) rs1(5) rs2(5)`: unsigned subtraction.
    SUB,
    /// `rde(5) rs1(5) rs2(5)`: bitwise and.
    AND,
    /// `rde(5) rs1(5) rs2(5)`: bitwise or.
    ORR,
    /// `rde(5) imm(20)`: bitwise or of `rde` with the immediate.
    ORI,
    /// `rde(5) rs1(5) rs2(5)`: bitwise exclusive or.
    XOR,
    /// Pop the program counter and clear the stack bytes it was read from.
    RTRN_POP,
    /// Pop the program counter and leave the stack bytes in place.
    RTRN,
    /// Soft reset of the executing core.
    RSET_SOFT,
    /// Hard reset of the executing core.
    RSET_HARD,
    /// Stop with a severe fault.
    HALT,
    /// `tgt(5) irpt(5)`: send an interrupt to another core.
    IRPT_SEND,
}

impl OpCode {
    /// The seven-bit number that encodes this operation.
    pub open spec fn code_spec(self) -> u32 {
        match self {
            OpCode::NOOP => 0x00,
            OpCode::LOAD_IMM => 0x01,
            OpCode::LDUP_IMM => 0x02,
            OpCode::STOR_IMM => 0x03,
            OpCode::LOAD_BYTE => 0x04,
            OpCode::STOR_BYTE => 0x05,
            OpCode::JUMP_IMM => 0x10,
            OpCode::JUMP_REG => 0x11,
            OpCode::BRAN_IMM => 0x12,
            OpCode::BRAN_REG => 0x13,
            OpCode::ADD => 0x20,
            OpCode::SUB => 0x21,
            OpCode::AND => 0x24,
            OpCode::ORR => 0x25,
            OpCode::ORI => 0x26,
            OpCode::XOR => 0x27,
            OpCode::RTRN_POP => 0x3D,
            OpCode::RTRN => 0x3E,
            OpCode::RSET_SOFT => 0x40,
            OpCode::RSET_HARD => 0x41,
            OpCode::HALT => 0x4F,
            OpCode::IRPT_SEND => 0x50,
        }
    }

    /// The operation that `value` encodes, if any.
    pub open spec fn from_code(value: u32) -> Option<OpCode> {
        if value == 0x00 {
            Some(OpCode::NOOP)
        } else if value == 0x01 {
            Some(OpCode::LOAD_IMM)
        } else if value == 0x02 {
            Some(OpCode::LDUP_IMM)
        } else if value == 0x03 {
            Some(OpCode::STOR_IMM)
        } else if value == 0x04 {
            Some(OpCode::LOAD_BYTE)
        } else if value == 0x05 {
            Some(OpCode::STOR_BYTE)
        } else if value == 0x10 {
            Some(OpCode::JUMP_IMM)
        } else if value == 0x11 {
            Some(OpCode::JUMP_REG)
        } else if value == 0x12 {
            Some(OpCode::BRAN_IMM)
        } else if value == 0x13 {
            Some(OpCode::BRAN_REG)
        } else if value == 0x20 {
            Some(OpCode::ADD)
        } else if value == 0x21 {
            Some(OpCode::SUB)
        } else if value == 0x24 {
            Some(OpCode::AND)
        } else if value == 0x25 {
            Some(OpCode::ORR)
        } else if value == 0x26 {
            Some(OpCode::ORI)
        } else if value == 0x27 {
            Some(OpCode::XOR)
        } else if value == 0x3D {
            Some(OpCode::RTRN_POP)
        } else if value == 0x3E {
            Some(OpCode::RTRN)
        } else if value == 0x40 {
            Some(OpCode::RSET_SOFT)
        } else if value == 0x41 {
            Some(OpCode::RSET_HARD)
        } else if value == 0x4F {
            Some(OpCode::HALT)
        } else if value == 0x50 {
            Some(OpCode::IRPT_SEND)
        } else {
            None
        }
    }

    /// The seven-bit number that encodes this operation.
    #[verifier::when_used_as_spec(code_spec)]
    pub fn code(self) -> (value: u32)
        ensures
            value == self.code_spec(),
            value <= 0x7F,
    {
        match self {
            OpCode::NOOP => 0x00,
            OpCode::LOAD_IMM => 0x01,
            OpCode::LDUP_IMM => 0x02,
            OpCode::STOR_IMM => 0x03,
            OpCode::LOAD_BYTE => 0x04,
            OpCode::STOR_BYTE => 0x05,
            OpCode::JUMP_IMM => 0x10,
            OpCode::JUMP_REG => 0x11,
            OpCode::BRAN_IMM => 0x12,
            OpCode::BRAN_REG => 0x13,
            OpCode::ADD => 0x20,
            OpCode::SUB => 0x21,
            OpCode::AND => 0x24,
            OpCode::ORR => 0x25,
            OpCode::ORI => 0x26,
            OpCode::XOR => 0x27,
            OpCode::RTRN_POP => 0x3D,
            OpCode::RTRN => 0x3E,
            OpCode::RSET_SOFT => 0x40,
            OpCode::RSET_HARD => 0x41,
            OpCode::HALT => 0x4F,
            OpCode::IRPT_SEND => 0x50,
        }
    }

    /// Decodes an operation number. A number that encodes no operation is
    /// an `InvalidOpCode`.
    pub fn try_from(value: u32) -> (decoded: Result<OpCode, CpuErrorType>)
        ensures
            decoded == match OpCode::from_code(value) {
                Some(op) => Ok::<OpCode, CpuErrorType>(op),
                None => Err::<OpCode, CpuErrorType>(CpuErrorType::InvalidOpCode(value)),
            },
    {
        match value {
            0x00 => Ok(OpCode::NOOP),
            0x01 => Ok(OpCode::LOAD_IMM),
            0x02 => Ok(OpCode::LDUP_IMM),
            0x03 => Ok(OpCode::STOR_IMM),
            0x04 => Ok(OpCode::LOAD_BYTE),
            0x05 => Ok(OpCode::STOR_BYTE),
            0x10 => Ok(OpCode::JUMP_IMM),
            0x11 => Ok(OpCode::JUMP_REG),
            0x12 => Ok(OpCode::BRAN_IMM),
            0x13 => Ok(OpCode::BRAN_REG),
            0x20 => Ok(OpCode::ADD),
            0x21 => Ok(OpCode::SUB),
            0x24 => Ok(OpCode::AND),
            0x25 => Ok(OpCode::ORR),
            0x26 => Ok(OpCode::ORI),
            0x27 => Ok(OpCode::XOR),
            0x3D => Ok(OpCode::RTRN_POP),
            0x3E => Ok(OpCode::RTRN),
            0x40 => Ok(OpCode::RSET_SOFT),
            0x41 => Ok(OpCode::RSET_HARD),
            0x4F => Ok(OpCode::HALT),
            0x50 => Ok(OpCode::IRPT_SEND),
            _ => Err(CpuErrorType::InvalidOpCode(value)),
        }
    }

    /// Whether the operation sets the program counter itself: a jump, a
    /// branch, a return or a reset.
    pub open spec fn redirects(self) -> bool {
        match self {
            OpCode::JUMP_IMM | OpCode::JUMP_REG | OpCode::BRAN_IMM | OpCode::BRAN_REG
            | OpCode::RTRN_POP | OpCode::RTRN | OpCode::RSET_SOFT | OpCode::RSET_HARD => true,
            _ => false,
        }
    }

    /// Whether the operation pushes the program counter.
    pub open spec fn pushes(self) -> bool {
        self == OpCode::BRAN_IMM || self == OpCode::BRAN_REG
    }

    /// Whether the operation pops the program counter.
    pub open spec fn pops(self) -> bool {
        self == OpCode::RTRN || self == OpCode::RTRN_POP
    }

    /// Decoding inverts encoding: the number of an operation decodes to that
    /// operation, and a number decodes to an operation only if it is that
    /// operation's number.
    pub proof fn lemma_code_round_trip(op: OpCode, value: u32)
        ensures
            OpCode::from_code(op.code_spec()) == Some(op),
            OpCode::from_code(value) == Some(op) <==> value == op.code_spec(),
    {
    }
}

/// The operation number of an instruction word: bits 31..25.
pub open spec fn opcode_bits(word: u32) -> u32 {
    (word >> 25) & 0x7F
}

/// The first five-bit operand of an instruction word: bits 24..20.
pub open spec fn operand_a(word: u32) -> u32 {
    (word >> 20) & 0x1F
}

/// The second five-bit operand of an instruction word: bits 19..15.
pub open spec fn operand_b(word: u32) -> u32 {
    (word >> 15) & 0x1F
}

/// The third five-bit operand of an instruction word: bits 14..10.
pub open spec fn operand_c(word: u32) -> u32 {
    (word >> 10) & 0x1F
}

/// The twenty-bit immediate of an instruction word: bits 19..0.
pub open spec fn immediate20(word: u32) -> u32 {
    word & 0xFFFFF
}

/// The twenty-five-bit immediate of an instruction word: bits 24..0.
pub open spec fn immediate25(word: u32) -> u32 {
    word & 0x1FFFFFF
}

/// The operation that an instruction word asks for. A word whose operation
/// number encodes nothing is read as `NOOP`.
pub open spec fn operation_of(word: u32) -> OpCode {
    match OpCode::from_code(opcode_bits(word)) {
        Some(op) => op,
        None => OpCode::NOOP,
    }
}

/// Every five-bit operand names one of thirty-two registers, and the
/// operation number and the immediates stay within their widths.
pub proof fn lemma_fields_in_range(word: u32)
    ensures
        opcode_bits(word) <= 0x7F,
        operand_a(word) < 32,
        operand_b(word) < 32,
        operand_c(word) < 32,
        immediate20(word) <= 0xFFFFF,
        immediate25(word) <= 0x1FFFFFF,
{
    assert((word >> 25) & 0x7F <= 0x7F && (word >> 20) & 0x1F < 32 && (word >> 15) & 0x1F < 32
        && (word >> 10) & 0x1F < 32 && word & 0xFFFFF <= 0xFFFFF && word & 0x1FFFFFF
        <= 0x1FFFFFF) by (bit_vector);
}

/// Extracts the operation number.
pub fn extract_opcode(word: u32) -> (bits: u32)
    ensures
        bits == opcode_bits(word),
        bits <= 0x7F,
{
    let bits: u32 = (word >> 25) & 0x7F;
    assert(bits <= 0x7F) by (bit_vector)
        requires
            bits == (word >> 25) & 0x7F,
    ;
    bits
}

/// Extracts the first five-bit operand.
pub fn extract_a(word: u32) -> (field: u32)
    ensures
        field == operand_a(word),
        field < 32,
{
    let field: u32 = (word >> 20) & 0x1F;
    assert(field < 32) by (bit_vector)
        requires
            field == (word >> 20) & 0x1F,
    ;
    field
}

/// Extracts the second five-bit operand.
pub fn extract_b(word: u32) -> (field: u32)
    ensures
        field == operand_b(word),
        field < 32,
{
    let field: u32 = (word >> 15) & 0x1F;
    assert(field < 32) by (bit_vector)
        requires
            field == (word >> 15) & 0x1F,
    ;
    field
}

/// Extracts the third five-bit operand.
pub fn extract_c(word: u32) -> (field: u32)
    ensures
        field == operand_c(word),
        field < 32,
{
    let field: u32 = (word >> 10) & 0x1F;
    assert(field < 32) by (bit_vector)
        requires
            field == (word >> 10) & 0x1F,
    ;
    field
}

/// Extracts the twenty-bit immediate.
pub fn extract_imm20(word: u32) -> (imm: u32)
    ensures
        imm == immediate20(word),
        imm <= 0xFFFFF,
{
    let imm: u32 = word & 0xFFFFF;
    assert(imm <= 0xFFFFF) by (bit_vector)
        requires
            imm == word & 0xFFFFF,
    ;
    imm
}

/// Extracts the twenty-five-bit immediate.
pub fn extract_imm25(word: u32) -> (imm: u32)
    ensures
        imm == immediate25(word),
        imm <= 0x1FFFFFF,
{
    let imm: u32 = word & 0x1FFFFFF;
    assert(imm <= 0x1FFFFFF) by (bit_vector)
        requires
            imm == word & 0x1FFFFFF,
    ;
    imm
}

/// Decodes the operation of an instruction word, reading an unknown operation
/// number as `NOOP`.
pub fn decode(word: u32) -> (op: OpCode)
    ensures
        op == operation_of(word),
{
    match OpCode::try_from(extract_opcode(word)) {
        Ok(op) => op,
        Err(_) => OpCode::NOOP,
    }
}

} // verus!
