//! The RV32IMA instruction decoder: a total function from a 32-bit
//! encoded word to a fully decoded operation descriptor.  Unrecognised
//! encodings decode to `INVALID`; the compressed (16-bit) decoder is a
//! stub that reports every encoding as `INVALID` with size 2.

use vstd::prelude::*;
use crate::util::{sign_extend, sign_ext_val, wrap32};
use crate::util::{lemma_u32_as_i32, lemma_i32_as_u32, lemma_u32_i32_roundtrip, lemma_wrap32_of_value};

verus! {

broadcast use lemma_u32_as_i32, lemma_i32_as_u32, lemma_u32_i32_roundtrip;

pub const OPCODE_MASK: u32 = 0b111_1111;
pub const REGISTER_MASK: u32 = 0b1_1111;
pub const FUNCT7_MASK: u32 = 0b111_1111;
pub const FUNCT3_MASK: u32 = 0b111;
pub const IMMEDIATE_20_MASK: u32 = 0b1111_1111_1111_1111_1111;
pub const IMMEDIATE_12_MASK: u32 = 0b1111_1111_1111;

/// A decoded operation: the variant names the operation, the fields are
/// the already-decoded operands (register indices, immediates).
/// Signed immediates are stored sign-extended; branch and jump
/// immediates hold the encoded multiple-of-two offset.
#[derive(Clone, Copy, PartialEq, Eq, Structural, Debug)]
pub enum Instruction {
    LUI(usize, u32),
    AUIPC(usize, u32),
    JAL(usize, u32),
    JALR(usize, usize, i32),
    BEQ(usize, usize, u32),
    BNE(usize, usize, u32),
    BLT(usize, usize, u32),
    BGE(usize, usize, u32),
    BLTU(usize, usize, u32),
    BGEU(usize, usize, u32),
    LB(usize, usize, i32),
    LH(usize, usize, i32),
    LW(usize, usize, i32),
    LBU(usize, usize, i32),
    LHU(usize, usize, i32),
    SB(usize, usize, i32),
    SH(usize, usize, i32),
    SW(usize, usize, i32),
    ADDI(usize, usize, u32),
    SLTI(usize, usize, u32),
    SLTIU(usize, usize, u32),
    XORI(usize, usize, u32),
    ORI(usize, usize, u32),
    ANDI(usize, usize, u32),
    SLLI(usize, usize, u32),
    SRLI(usize, usize, u32),
    SRAI(usize, usize, u32),
    ADD(usize, usize, usize),
    SUB(usize, usize, usize),
    SLL(usize, usize, usize),
    SLT(usize, usize, usize),
    SLTU(usize, usize, usize),
    XOR(usize, usize, usize),
    SRL(usize, usize, usize),
    SRA(usize, usize, usize),
    OR(usize, usize, usize),
    AND(usize, usize, usize),
    EBREAK,
    MUL(usize, usize, usize),
    MULH(usize, usize, usize),
    MULHSU(usize, usize, usize),
    MULHU(usize, usize, usize),
    DIV(usize, usize, usize),
    DIVU(usize, usize, usize),
    REM(usize, usize, usize),
    REMU(usize, usize, usize),
    LRW(usize, usize, usize),
    SCW(usize, usize, usize),
    AMOSWAPW(usize, usize, usize),
    AMOADDW(usize, usize, usize),
    AMOXORW(usize, usize, usize),
    AMOANDW(usize, usize, usize),
    AMOORW(usize, usize, usize),
    AMOMINW(usize, usize, usize),
    AMOMAXW(usize, usize, usize),
    AMOMINUW(usize, usize, usize),
    AMOMAXUW(usize, usize, usize),
    MRET,
    CSRRW,
    CSRRS,
    CSRRC,
    CSRRWI,
    CSRRSI,
    CSRRCI,
    INVALID,
}

/// A decoded instruction together with its encoded size in bytes
/// (4 for a full encoding, 2 for a compressed one).
#[derive(Clone, Copy, PartialEq, Eq, Structural, Debug)]
pub struct WrappedInstruction {
    pub instruction: Instruction,
    pub size: u32,
}

/// All register indices are below 32 and all shift amounts below 32:
/// what the execution core needs of a decoded instruction to run it.
pub open spec fn wf_instr(i: Instruction) -> bool {
    match i {
        Instruction::LUI(rd, _) => rd < 32,
        Instruction::AUIPC(rd, _) => rd < 32,
        Instruction::JAL(rd, _) => rd < 32,
        Instruction::JALR(rd, rs1, _) => rd < 32 && rs1 < 32,
        Instruction::BEQ(rs1, rs2, _) => rs1 < 32 && rs2 < 32,
        Instruction::BNE(rs1, rs2, _) => rs1 < 32 && rs2 < 32,
        Instruction::BLT(rs1, rs2, _) => rs1 < 32 && rs2 < 32,
        Instruction::BGE(rs1, rs2, _) => rs1 < 32 && rs2 < 32,
        Instruction::BLTU(rs1, rs2, _) => rs1 < 32 && rs2 < 32,
        Instruction::BGEU(rs1, rs2, _) => rs1 < 32 && rs2 < 32,
        Instruction::LB(rd, rs1, _) => rd < 32 && rs1 < 32,
        Instruction::LH(rd, rs1, _) => rd < 32 && rs1 < 32,
        Instruction::LW(rd, rs1, _) => rd < 32 && rs1 < 32,
        Instruction::LBU(rd, rs1, _) => rd < 32 && rs1 < 32,
        Instruction::LHU(rd, rs1, _) => rd < 32 && rs1 < 32,
        Instruction::SB(rs1, rs2, _) => rs1 < 32 && rs2 < 32,
        Instruction::SH(rs1, rs2, _) => rs1 < 32 && rs2 < 32,
        Instruction::SW(rs1, rs2, _) => rs1 < 32 && rs2 < 32,
        Instruction::ADDI(rd, rs1, _) => rd < 32 && rs1 < 32,
        Instruction::SLTI(rd, rs1, _) => rd < 32 && rs1 < 32,
        Instruction::SLTIU(rd, rs1, _) => rd < 32 && rs1 < 32,
        Instruction::XORI(rd, rs1, _) => rd < 32 && rs1 < 32,
        Instruction::ORI(rd, rs1, _) => rd < 32 && rs1 < 32,
        Instruction::ANDI(rd, rs1, _) => rd < 32 && rs1 < 32,
        Instruction::SLLI(rd, rs1, sh) => rd < 32 && rs1 < 32 && sh < 32,
        Instruction::SRLI(rd, rs1, sh) => rd < 32 && rs1 < 32 && sh < 32,
        Instruction::SRAI(rd, rs1, sh) => rd < 32 && rs1 < 32 && sh < 32,
        Instruction::ADD(rd, rs1, rs2) => rd < 32 && rs1 < 32 && rs2 < 32,
        Instruction::SUB(rd, rs1, rs2) => rd < 32 && rs1 < 32 && rs2 < 32,
        Instruction::SLL(rd, rs1, rs2) => rd < 32 && rs1 < 32 && rs2 < 32,
        Instruction::SLT(rd, rs1, rs2) => rd < 32 && rs1 < 32 && rs2 < 32,
        Instruction::SLTU(rd, rs1, rs2) => rd < 32 && rs1 < 32 && rs2 < 32,
        Instruction::XOR(rd, rs1, rs2) => rd < 32 && rs1 < 32 && rs2 < 32,
        Instruction::SRL(rd, rs1, rs2) => rd < 32 && rs1 < 32 && rs2 < 32,
        Instruction::SRA(rd, rs1, rs2) => rd < 32 && rs1 < 32 && rs2 < 32,
        Instruction::OR(rd, rs1, rs2) => rd < 32 && rs1 < 32 && rs2 < 32,
        Instruction::AND(rd, rs1, rs2) => rd < 32 && rs1 < 32 && rs2 < 32,
        Instruction::MUL(rd, rs1, rs2) => rd < 32 && rs1 < 32 && rs2 < 32,
        Instruction::MULH(rd, rs1, rs2) => rd < 32 && rs1 < 32 && rs2 < 32,
        Instruction::MULHSU(rd, rs1, rs2) => rd < 32 && rs1 < 32 && rs2 < 32,
        Instruction::MULHU(rd, rs1, rs2) => rd < 32 && rs1 < 32 && rs2 < 32,
        Instruction::DIV(rd, rs1, rs2) => rd < 32 && rs1 < 32 && rs2 < 32,
        Instruction::DIVU(rd, rs1, rs2) => rd < 32 && rs1 < 32 && rs2 < 32,
        Instruction::REM(rd, rs1, rs2) => rd < 32 && rs1 < 32 && rs2 < 32,
        Instruction::REMU(rd, rs1, rs2) => rd < 32 && rs1 < 32 && rs2 < 32,
        Instruction::LRW(rd, rs1, rs2) => rd < 32 && rs1 < 32 && rs2 < 32,
        Instruction::SCW(rd, rs1, rs2) => rd < 32 && rs1 < 32 && rs2 < 32,
        Instruction::AMOSWAPW(rd, rs1, rs2) => rd < 32 && rs1 < 32 && rs2 < 32,
        Instruction::AMOADDW(rd, rs1, rs2) => rd < 32 && rs1 < 32 && rs2 < 32,
        Instruction::AMOXORW(rd, rs1, rs2) => rd < 32 && rs1 < 32 && rs2 < 32,
        Instruction::AMOANDW(rd, rs1, rs2) => rd < 32 && rs1 < 32 && rs2 < 32,
        Instruction::AMOORW(rd, rs1, rs2) => rd < 32 && rs1 < 32 && rs2 < 32,
        Instruction::AMOMINW(rd, rs1, rs2) => rd < 32 && rs1 < 32 && rs2 < 32,
        Instruction::AMOMAXW(rd, rs1, rs2) => rd < 32 && rs1 < 32 && rs2 < 32,
        Instruction::AMOMINUW(rd, rs1, rs2) => rd < 32 && rs1 < 32 && rs2 < 32,
        Instruction::AMOMAXUW(rd, rs1, rs2) => rd < 32 && rs1 < 32 && rs2 < 32,
        _ => true,
    }
}

// Field extraction, shared between the decoder's specification and its
// executable form.
pub open spec fn rd_of(code: u32) -> usize {
    ((code >> 7) & REGISTER_MASK) as usize
}

pub open spec fn rs1_of(code: u32) -> usize {
    ((code >> 15) & REGISTER_MASK) as usize
}

pub open spec fn rs2_of(code: u32) -> usize {
    ((code >> 20) & REGISTER_MASK) as usize
}

pub open spec fn funct3_of(code: u32) -> u32 {
    (code >> 12) & FUNCT3_MASK
}

pub open spec fn funct7_of(code: u32) -> u32 {
    (code >> 25) & FUNCT7_MASK
}

pub open spec fn imm12_of(code: u32) -> u32 {
    (code >> 20) & IMMEDIATE_12_MASK
}

/// The 20-bit JAL immediate, reassembled from its scattered fields.
pub open spec fn jal_field(code: u32) -> u32 {
    ((((code >> 31) & 0b1) << 19) | (((code >> 20) & 0b1) << 10) | ((code >> 21) & 0b11_1111_1111))
        | (((code >> 12) & 0b1111_1111) << 11)
}

/// The 12-bit branch immediate, reassembled from its scattered fields.
pub open spec fn branch_field(code: u32) -> u32 {
    ((((code >> 8) & 0b1111) | (((code >> 25) & 0b11_1111) << 4)) | (((code >> 7) & 0b1) << 10))
        | (((code >> 31) & 0b1) << 11)
}

/// The 12-bit store immediate, reassembled from its two fields.
pub open spec fn store_field(code: u32) -> u32 {
    ((code >> 7) & 0b1_1111) | (((code >> 25) & 0b111_1111) << 5)
}

/// A 12-bit field sign-extended and reinterpreted as a signed value.
pub open spec fn sext12_i32(v: u32) -> i32 {
    sign_ext_val(v, 12) as i32
}

/// A 12-bit field sign-extended into a 32-bit container.
pub open spec fn sext12_u32(v: u32) -> u32 {
    wrap32(sign_ext_val(v, 12))
}

/// A 20-bit field sign-extended into a 32-bit container.
pub open spec fn sext20_u32(v: u32) -> u32 {
    wrap32(sign_ext_val(v, 20))
}

pub open spec fn decode_branch(code: u32) -> Instruction {
    let rs1 = rs1_of(code);
    let rs2 = rs2_of(code);
    let imm = sext12_u32(branch_field(code));
    let funct3 = funct3_of(code);
    if funct3 == 0b000 {
        Instruction::BEQ(rs1, rs2, imm)
    } else if funct3 == 0b001 {
        Instruction::BNE(rs1, rs2, imm)
    } else if funct3 == 0b100 {
        Instruction::BLT(rs1, rs2, imm)
    } else if funct3 == 0b101 {
        Instruction::BGE(rs1, rs2, imm)
    } else if funct3 == 0b110 {
        Instruction::BLTU(rs1, rs2, imm)
    } else if funct3 == 0b111 {
        Instruction::BGEU(rs1, rs2, imm)
    } else {
        Instruction::INVALID
    }
}

pub open spec fn decode_load(code: u32) -> Instruction {
    let rd = rd_of(code);
    let rs1 = rs1_of(code);
    let imm = sext12_i32(imm12_of(code));
    let funct3 = funct3_of(code);
    if funct3 == 0b000 {
        Instruction::LB(rd, rs1, imm)
    } else if funct3 == 0b001 {
        Instruction::LH(rd, rs1, imm)
    } else if funct3 == 0b010 {
        Instruction::LW(rd, rs1, imm)
    } else if funct3 == 0b100 {
        Instruction::LBU(rd, rs1, imm)
    } else if funct3 == 0b101 {
        Instruction::LHU(rd, rs1, imm)
    } else {
        Instruction::INVALID
    }
}

pub open spec fn decode_store(code: u32) -> Instruction {
    let rs1 = rs1_of(code);
    let rs2 = rs2_of(code);
    let imm = sext12_i32(store_field(code));
    let funct3 = funct3_of(code);
    if funct3 == 0b000 {
        Instruction::SB(rs1, rs2, imm)
    } else if funct3 == 0b001 {
        Instruction::SH(rs1, rs2, imm)
    } else if funct3 == 0b010 {
        Instruction::SW(rs1, rs2, imm)
    } else {
        Instruction::INVALID
    }
}

pub open spec fn decode_alu_imm(code: u32) -> Instruction {
    let rd = rd_of(code);
    let rs1 = rs1_of(code);
    let imm = sext12_u32(imm12_of(code));
    let shamt = imm12_of(code) & 0b1_1111;
    let funct3 = funct3_of(code);
    let funct7 = funct7_of(code);
    if funct3 == 0b000 {
        Instruction::ADDI(rd, rs1, imm)
    } else if funct3 == 0b010 {
        Instruction::SLTI(rd, rs1, imm)
    } else if funct3 == 0b011 {
        Instruction::SLTIU(rd, rs1, imm)
    } else if funct3 == 0b100 {
        Instruction::XORI(rd, rs1, imm)
    } else if funct3 == 0b110 {
        Instruction::ORI(rd, rs1, imm)
    } else if funct3 == 0b111 {
        Instruction::ANDI(rd, rs1, imm)
    } else if funct3 == 0b001 {
        Instruction::SLLI(rd, rs1, shamt)
    } else if funct3 == 0b101 {
        if funct7 == 0b010_0000 {
            Instruction::SRAI(rd, rs1, shamt)
        } else if funct7 == 0 {
            Instruction::SRLI(rd, rs1, shamt)
        } else {
            Instruction::INVALID
        }
    } else {
        Instruction::INVALID
    }
}

pub open spec fn decode_alu_reg(code: u32) -> Instruction {
    let rd = rd_of(code);
    let rs1 = rs1_of(code);
    let rs2 = rs2_of(code);
    let funct3 = funct3_of(code);
    let funct7 = funct7_of(code);
    if funct3 == 0b000 && funct7 == 0b010_0000 {
        Instruction::SUB(rd, rs1, rs2)
    } else if funct3 == 0b000 && funct7 == 0b000_0000 {
        Instruction::ADD(rd, rs1, rs2)
    } else if funct3 == 0b000 && funct7 == 0b000_0001 {
        Instruction::MUL(rd, rs1, rs2)
    } else if funct3 == 0b001 && funct7 == 0b000_0000 {
        Instruction::SLL(rd, rs1, rs2)
    } else if funct3 == 0b001 && funct7 == 0b000_0001 {
        Instruction::MULH(rd, rs1, rs2)
    } else if funct3 == 0b010 && funct7 == 0b000_0000 {
        Instruction::SLT(rd, rs1, rs2)
    } else if funct3 == 0b010 && funct7 == 0b000_0001 {
        Instruction::MULHSU(rd, rs1, rs2)
    } else if funct3 == 0b011 && funct7 == 0b000_0000 {
        Instruction::SLTU(rd, rs1, rs2)
    } else if funct3 == 0b011 && funct7 == 0b000_0001 {
        Instruction::MULHU(rd, rs1, rs2)
    } else if funct3 == 0b100 && funct7 == 0b000_0000 {
        Instruction::XOR(rd, rs1, rs2)
    } else if funct3 == 0b100 && funct7 == 0b000_0001 {
        Instruction::DIV(rd, rs1, rs2)
    } else if funct3 == 0b101 && funct7 == 0b010_0000 {
        Instruction::SRA(rd, rs1, rs2)
    } else if funct3 == 0b101 && funct7 == 0b000_0000 {
        Instruction::SRL(rd, rs1, rs2)
    } else if funct3 == 0b101 && funct7 == 0b000_0001 {
        Instruction::DIVU(rd, rs1, rs2)
    } else if funct3 == 0b110 && funct7 == 0b000_0000 {
        Instruction::OR(rd, rs1, rs2)
    } else if funct3 == 0b110 && funct7 == 0b000_0001 {
        Instruction::REM(rd, rs1, rs2)
    } else if funct3 == 0b111 && funct7 == 0b000_0000 {
        Instruction::AND(rd, rs1, rs2)
    } else if funct3 == 0b111 && funct7 == 0b000_0001 {
        Instruction::REMU(rd, rs1, rs2)
    } else {
        Instruction::INVALID
    }
}

pub open spec fn decode_atomic(code: u32) -> Instruction {
    let rd = rd_of(code);
    let rs1 = rs1_of(code);
    let rs2 = rs2_of(code);
    let funct3 = funct3_of(code);
    let funct5 = (code >> 27) & 0b1_1111;
    if funct3 != 0b010 {
        Instruction::INVALID
    } else if funct5 == 0b0_0010 && rs2 == 0 {
        Instruction::LRW(rd, rs1, 0)
    } else if funct5 == 0b0_0011 {
        Instruction::SCW(rd, rs1, rs2)
    } else if funct5 == 0b0_0001 {
        Instruction::AMOSWAPW(rd, rs1, rs2)
    } else if funct5 == 0b0_0000 {
        Instruction::AMOADDW(rd, rs1, rs2)
    } else if funct5 == 0b0_0100 {
        Instruction::AMOXORW(rd, rs1, rs2)
    } else if funct5 == 0b0_1100 {
        Instruction::AMOANDW(rd, rs1, rs2)
    } else if funct5 == 0b0_1000 {
        Instruction::AMOORW(rd, rs1, rs2)
    } else if funct5 == 0b1_0000 {
        Instruction::AMOMINW(rd, rs1, rs2)
    } else if funct5 == 0b1_0100 {
        Instruction::AMOMAXW(rd, rs1, rs2)
    } else if funct5 == 0b1_1000 {
        Instruction::AMOMINUW(rd, rs1, rs2)
    } else if funct5 == 0b1_1100 {
        Instruction::AMOMAXUW(rd, rs1, rs2)
    } else {
        Instruction::INVALID
    }
}

pub open spec fn decode_system(code: u32) -> Instruction {
    let funct3 = funct3_of(code);
    let imm12 = imm12_of(code);
    if funct3 == 0b000 {
        if imm12 == 0b1 {
            Instruction::EBREAK
        } else if imm12 == 0b0011_0000_0010 {
            Instruction::MRET
        } else {
            Instruction::INVALID
        }
    } else if funct3 == 0b001 {
        Instruction::CSRRW
    } else if funct3 == 0b010 {
        Instruction::CSRRS
    } else if funct3 == 0b011 {
        Instruction::CSRRC
    } else if funct3 == 0b101 {
        Instruction::CSRRWI
    } else if funct3 == 0b110 {
        Instruction::CSRRSI
    } else if funct3 == 0b111 {
        Instruction::CSRRCI
    } else {
        Instruction::INVALID
    }
}

/// What any 32-bit word decodes to under the full (4-byte) encoding.
pub open spec fn decode(code: u32) -> Instruction {
    let opcode = code & OPCODE_MASK;
    if opcode == 0b011_0111 {
        Instruction::LUI(rd_of(code), (code >> 12) & IMMEDIATE_20_MASK)
    } else if opcode == 0b001_0111 {
        Instruction::AUIPC(rd_of(code), (code >> 12) & IMMEDIATE_20_MASK)
    } else if opcode == 0b110_1111 {
        Instruction::JAL(rd_of(code), sext20_u32(jal_field(code)))
    } else if opcode == 0b110_0111 {
        if funct3_of(code) == 0 {
            Instruction::JALR(rd_of(code), rs1_of(code), sext12_i32(imm12_of(code)))
        } else {
            Instruction::INVALID
        }
    } else if opcode == 0b110_0011 {
        decode_branch(code)
    } else if opcode == 0b000_0011 {
        decode_load(code)
    } else if opcode == 0b010_0011 {
        decode_store(code)
    } else if opcode == 0b001_0011 {
        decode_alu_imm(code)
    } else if opcode == 0b011_0011 {
        decode_alu_reg(code)
    } else if opcode == 0b111_0011 {
        decode_system(code)
    } else if opcode == 0b010_1111 {
        decode_atomic(code)
    } else {
        Instruction::INVALID
    }
}

/// What any 16-bit word decodes to under the compressed encoding:
/// nothing is recognised yet.
pub open spec fn decode_compressed(code: u16) -> Instruction {
    Instruction::INVALID
}

/// Full decoding of a fetched word: the low two bits select the
/// compressed or the full decoder, and fix the instruction size.
pub open spec fn decode_wrapped(code: u32) -> WrappedInstruction {
    if code & 0b11 == 0b11 {
        WrappedInstruction { instruction: decode(code), size: 4 }
    } else {
        WrappedInstruction { instruction: decode_compressed(code as u16), size: 2 }
    }
}

/// Bounds on every field the decoder extracts: register indices and
/// shift amounts fit in five bits, reassembled immediates in their width.
proof fn lemma_decode_field_bounds(code: u32)
    by (bit_vector)
    ensures
        (code >> 7) & 0b1_1111 < 32,
        (code >> 15) & 0b1_1111 < 32,
        (code >> 20) & 0b1_1111 < 32,
        (code >> 20) & 0b1111_1111_1111 < 0x1000,
        ((code >> 20) & 0b1111_1111_1111) & 0b1_1111 < 32,
        (code >> 12) & 0b1111_1111_1111_1111_1111 < 0x10_0000,
        ((((code >> 31) & 0b1) << 19) | (((code >> 20) & 0b1) << 10) | ((code >> 21)
            & 0b11_1111_1111)) | (((code >> 12) & 0b1111_1111) << 11) < 0x10_0000,
        ((((code >> 8) & 0b1111) | (((code >> 25) & 0b11_1111) << 4)) | (((code >> 7) & 0b1) << 10))
            | (((code >> 31) & 0b1) << 11) < 0x1000,
        ((code >> 7) & 0b1_1111) | (((code >> 25) & 0b111_1111) << 5) < 0x1000,
{
}

/// Sign extension of a field, producing the signed container value.
fn imm12_signed(v: u32) -> (r: i32)
    requires
        v < 0x8000_0000,
    ensures
        r == sext12_i32(v),
{
    let r = sign_extend(v as i32, 12);
    proof {
        assert(-0x800 <= sign_ext_val(v, 12) < 0x800) by {
            vstd::arithmetic::power2::lemma2_to64();
        };
    }
    r
}

/// Sign extension of a 12-bit field into an unsigned 32-bit container.
fn imm12_extended(v: u32) -> (r: u32)
    requires
        v < 0x8000_0000,
    ensures
        r == sext12_u32(v),
{
    let s = sign_extend(v as i32, 12);
    let r = #[verifier::truncate] (s as u32);
    proof {
        lemma_wrap32_of_value(r);
    }
    r
}

/// Sign extension of a 20-bit field into an unsigned 32-bit container.
fn imm20_extended(v: u32) -> (r: u32)
    requires
        v < 0x8000_0000,
    ensures
        r == sext20_u32(v),
{
    let s = sign_extend(v as i32, 20);
    let r = #[verifier::truncate] (s as u32);
    proof {
        lemma_wrap32_of_value(r);
    }
    r
}

/// Totality: every 32-bit word decodes, and what it decodes to is
/// well formed; unrecognised encodings are exactly `INVALID`.
pub proof fn lemma_decode_total(code: u32)
    ensures
        wf_instr(decode(code)),
        wf_instr(decode_wrapped(code).instruction),
{
    lemma_decode_field_bounds(code);
    assert((code >> 27) & 0b1_1111 < 32) by (bit_vector);
}

impl WrappedInstruction {
    pub fn new(code: u32) -> (r: Self)
        ensures
            r == decode_wrapped(code),
            wf_instr(r.instruction),
            r.size == 2 || r.size == 4,
    {
        match code & 0b11 {
            0b11 => WrappedInstruction { instruction: Instruction::new(code), size: 4 },
            _ => WrappedInstruction {
                instruction: Instruction::new_compressed(#[verifier::truncate] (code as u16)),
                size: 2,
            },
        }
    }
}

impl Instruction {
    /// Decode a full 32-bit encoding.  Total: every word yields a
    /// well-formed instruction, unrecognised ones yield `INVALID`.
    pub fn new(code: u32) -> (r: Self)
        ensures
            r == decode(code),
            wf_instr(r),
    {
        proof {
            lemma_decode_field_bounds(code);
        }
        let opcode = code & OPCODE_MASK;

        match opcode {
            0b011_0111 => {
                let rd = shift_and_mask(code, 7, REGISTER_MASK);
                let immediate = shift_and_mask(code, 12, IMMEDIATE_20_MASK) as u32;
                Instruction::LUI(rd, immediate)
            },
            0b001_0111 => {
                let rd = shift_and_mask(code, 7, REGISTER_MASK);
                let immediate = shift_and_mask(code, 12, IMMEDIATE_20_MASK) as u32;
                Instruction::AUIPC(rd, immediate)
            },
            0b110_1111 => {
                let rd = shift_and_mask(code, 7, REGISTER_MASK);

                let imm_0_to_10 = shift_and_mask(code, 21, 0b11_1111_1111) as u32;
                let imm_12_to_19 = shift_and_mask(code, 12, 0b1111_1111) as u32;
                let imm_11 = shift_and_mask(code, 20, 0b1) as u32;
                let imm_20 = shift_and_mask(code, 31, 0b1) as u32;

                let mut immediate = (imm_20 << 19) | (imm_11 << 10) | imm_0_to_10;
                immediate = immediate | (imm_12_to_19 << 11);

                Instruction::JAL(rd, imm20_extended(immediate))
            },
            0b110_0111 => {
                let rd = shift_and_mask(code, 7, REGISTER_MASK);
                let rs1 = shift_and_mask(code, 15, REGISTER_MASK);
                let immediate = shift_and_mask(code, 20, IMMEDIATE_12_MASK) as u32;
                let funct3 = shift_and_mask(code, 12, FUNCT3_MASK);

                if funct3 == 0 {
                    Instruction::JALR(rd, rs1, imm12_signed(immediate))
                } else {
                    Instruction::INVALID
                }
            },
            0b110_0011 => Instruction::match_branch(code),
            0b000_0011 => Instruction::match_load(code),
            0b010_0011 => Instruction::match_store(code),
            0b001_0011 => Instruction::match_arithmetic_immediate(code),
            0b011_0011 => Instruction::match_arithmetic(code),
            0b111_0011 => {
                let funct3 = shift_and_mask(code, 12, FUNCT3_MASK);
                let imm12 = shift_and_mask(code, 20, IMMEDIATE_12_MASK);

                match funct3 {
                    0b000 => match imm12 {
                        0b1 => Instruction::EBREAK,
                        0b0011_0000_0010 => Instruction::MRET,
                        _ => Instruction::INVALID,
                    },
                    0b001 => Instruction::CSRRW,
                    0b010 => Instruction::CSRRS,
                    0b011 => Instruction::CSRRC,
                    0b101 => Instruction::CSRRWI,
                    0b110 => Instruction::CSRRSI,
                    0b111 => Instruction::CSRRCI,
                    _ => Instruction::INVALID,
                }
            },
            0b010_1111 => Instruction::match_atomic(code),
            _ => Instruction::INVALID,
        }
    }

    /// Decode a compressed 16-bit encoding: a stub that recognises
    /// nothing yet.
    pub fn new_compressed(_code: u16) -> (r: Self)
        ensures
            r == decode_compressed(_code),
    {
        Instruction::INVALID
    }

    fn match_branch(code: u32) -> (r: Self)
        ensures
            r == decode_branch(code),
            wf_instr(r),
    {
        proof {
            lemma_decode_field_bounds(code);
        }
        let funct3 = shift_and_mask(code, 12, FUNCT3_MASK);
        let rs1 = shift_and_mask(code, 15, REGISTER_MASK);
        let rs2 = shift_and_mask(code, 20, REGISTER_MASK);

        let imm_1_to_4 = shift_and_mask(code, 8, 0b1111) as u32;
        let imm_5_to_11 = shift_and_mask(code, 25, 0b11_1111) as u32;
        let imm_11 = shift_and_mask(code, 7, 0b1) as u32;
        let imm_12 = shift_and_mask(code, 31, 0b1) as u32;

        let mut immediate = (imm_1_to_4 | (imm_5_to_11 << 4)) | (imm_11 << 10);
        immediate = immediate | (imm_12 << 11);

        let imm = imm12_extended(immediate);

        match funct3 {
            0b000 => Instruction::BEQ(rs1, rs2, imm),
            0b001 => Instruction::BNE(rs1, rs2, imm),
            0b100 => Instruction::BLT(rs1, rs2, imm),
            0b101 => Instruction::BGE(rs1, rs2, imm),
            0b110 => Instruction::BLTU(rs1, rs2, imm),
            0b111 => Instruction::BGEU(rs1, rs2, imm),
            _ => Instruction::INVALID,
        }
    }

    fn match_load(code: u32) -> (r: Self)
        ensures
            r == decode_load(code),
            wf_instr(r),
    {
        proof {
            lemma_decode_field_bounds(code);
        }
        let rd = shift_and_mask(code, 7, REGISTER_MASK);
        let funct3 = shift_and_mask(code, 12, FUNCT3_MASK);
        let rs1 = shift_and_mask(code, 15, REGISTER_MASK);
        let immediate = shift_and_mask(code, 20, IMMEDIATE_12_MASK) as u32;
        let immediate_sign_extended = imm12_signed(immediate);

        match funct3 {
            0b000 => Instruction::LB(rd, rs1, immediate_sign_extended),
            0b001 => Instruction::LH(rd, rs1, immediate_sign_extended),
            0b010 => Instruction::LW(rd, rs1, immediate_sign_extended),
            0b100 => Instruction::LBU(rd, rs1, immediate_sign_extended),
            0b101 => Instruction::LHU(rd, rs1, immediate_sign_extended),
            _ => Instruction::INVALID,
        }
    }

    fn match_store(code: u32) -> (r: Self)
        ensures
            r == decode_store(code),
            wf_instr(r),
    {
        proof {
            lemma_decode_field_bounds(code);
        }
        let rs1 = shift_and_mask(code, 15, REGISTER_MASK);
        let rs2 = shift_and_mask(code, 20, REGISTER_MASK);
        let funct3 = shift_and_mask(code, 12, FUNCT3_MASK);

        let imm_1_to_5 = shift_and_mask(code, 7, 0b1_1111) as u32;
        let imm_6_to_12 = shift_and_mask(code, 25, 0b111_1111) as u32;

        let immediate = imm_1_to_5 | (imm_6_to_12 << 5);

        let immediate_sign_extended = imm12_signed(immediate);

        match funct3 {
            0b000 => Instruction::SB(rs1, rs2, immediate_sign_extended),
            0b001 => Instruction::SH(rs1, rs2, immediate_sign_extended),
            0b010 => Instruction::SW(rs1, rs2, immediate_sign_extended),
            _ => Instruction::INVALID,
        }
    }

    fn match_arithmetic_immediate(code: u32) -> (r: Self)
        ensures
            r == decode_alu_imm(code),
            wf_instr(r),
    {
        proof {
            lemma_decode_field_bounds(code);
        }
        let rd = shift_and_mask(code, 7, REGISTER_MASK);
        let funct3 = shift_and_mask(code, 12, FUNCT3_MASK);
        let rs1 = shift_and_mask(code, 15, REGISTER_MASK);
        let immediate = shift_and_mask(code, 20, IMMEDIATE_12_MASK) as u32;
        let immediate_sign_extended = imm12_extended(immediate);

        let shift_amount = immediate & 0b1_1111;
        let funct7 = shift_and_mask(code, 25, FUNCT7_MASK);

        match funct3 {
            0b000 => Instruction::ADDI(rd, rs1, immediate_sign_extended),
            0b010 => Instruction::SLTI(rd, rs1, immediate_sign_extended),
            0b011 => Instruction::SLTIU(rd, rs1, immediate_sign_extended),
            0b100 => Instruction::XORI(rd, rs1, immediate_sign_extended),
            0b110 => Instruction::ORI(rd, rs1, immediate_sign_extended),
            0b111 => Instruction::ANDI(rd, rs1, immediate_sign_extended),
            0b001 => Instruction::SLLI(rd, rs1, shift_amount),
            0b101 => {
                if funct7 == 0b010_0000 {
                    Instruction::SRAI(rd, rs1, shift_amount)
                } else if funct7 == 0 {
                    Instruction::SRLI(rd, rs1, shift_amount)
                } else {
                    Instruction::INVALID
                }
            },
            _ => Instruction::INVALID,
        }
    }

    fn match_arithmetic(code: u32) -> (r: Self)
        ensures
            r == decode_alu_reg(code),
            wf_instr(r),
    {
        proof {
            lemma_decode_field_bounds(code);
        }
        let rd = shift_and_mask(code, 7, REGISTER_MASK);
        let funct3 = shift_and_mask(code, 12, FUNCT3_MASK);
        let rs1 = shift_and_mask(code, 15, REGISTER_MASK);
        let rs2 = shift_and_mask(code, 20, REGISTER_MASK);
        let funct7 = shift_and_mask(code, 25, FUNCT7_MASK);

        match (funct3, funct7) {
            (0b000, 0b010_0000) => Instruction::SUB(rd, rs1, rs2),
            (0b000, 0b000_0000) => Instruction::ADD(rd, rs1, rs2),
            (0b000, 0b000_0001) => Instruction::MUL(rd, rs1, rs2),
            (0b001, 0b000_0000) => Instruction::SLL(rd, rs1, rs2),
            (0b001, 0b000_0001) => Instruction::MULH(rd, rs1, rs2),
            (0b010, 0b000_0000) => Instruction::SLT(rd, rs1, rs2),
            (0b010, 0b000_0001) => Instruction::MULHSU(rd, rs1, rs2),
            (0b011, 0b000_0000) => Instruction::SLTU(rd, rs1, rs2),
            (0b011, 0b000_0001) => Instruction::MULHU(rd, rs1, rs2),
            (0b100, 0b000_0000) => Instruction::XOR(rd, rs1, rs2),
            (0b100, 0b000_0001) => Instruction::DIV(rd, rs1, rs2),
            (0b101, 0b010_0000) => Instruction::SRA(rd, rs1, rs2),
            (0b101, 0b000_0000) => Instruction::SRL(rd, rs1, rs2),
            (0b101, 0b000_0001) => Instruction::DIVU(rd, rs1, rs2),
            (0b110, 0b000_0000) => Instruction::OR(rd, rs1, rs2),
            (0b110, 0b000_0001) => Instruction::REM(rd, rs1, rs2),
            (0b111, 0b000_0000) => Instruction::AND(rd, rs1, rs2),
            (0b111, 0b000_0001) => Instruction::REMU(rd, rs1, rs2),
            _ => Instruction::INVALID,
        }
    }

    fn match_atomic(code: u32) -> (r: Self)
        ensures
            r == decode_atomic(code),
            wf_instr(r),
    {
        proof {
            lemma_decode_field_bounds(code);
            assert((code >> 27) & 0b1_1111 < 32) by (bit_vector);
        }
        let rd = shift_and_mask(code, 7, REGISTER_MASK);
        let funct3 = shift_and_mask(code, 12, FUNCT3_MASK);
        let rs1 = shift_and_mask(code, 15, REGISTER_MASK);
        let rs2 = shift_and_mask(code, 20, REGISTER_MASK);
        let funct5 = shift_and_mask(code, 27, 0b1_1111);

        if funct3 != 0b010 {
            return Instruction::INVALID;
        }
        match funct5 {
            0b0_0010 if rs2 == 0 => Instruction::LRW(rd, rs1, 0),
            0b0_0011 => Instruction::SCW(rd, rs1, rs2),
            0b0_0001 => Instruction::AMOSWAPW(rd, rs1, rs2),
            0b0_0000 => Instruction::AMOADDW(rd, rs1, rs2),
            0b0_0100 => Instruction::AMOXORW(rd, rs1, rs2),
            0b0_1100 => Instruction::AMOANDW(rd, rs1, rs2),
            0b0_1000 => Instruction::AMOORW(rd, rs1, rs2),
            0b1_0000 => Instruction::AMOMINW(rd, rs1, rs2),
            0b1_0100 => Instruction::AMOMAXW(rd, rs1, rs2),
            0b1_1000 => Instruction::AMOMINUW(rd, rs1, rs2),
            0b1_1100 => Instruction::AMOMAXUW(rd, rs1, rs2),
            _ => Instruction::INVALID,
        }
    }
}

fn shift_and_mask(code: u32, shift: u32, mask: u32) -> (r: usize)
    requires
        shift < 32,
    ensures
        r == ((code >> shift) & mask) as usize,
{
    ((code >> shift) & mask) as usize
}

} // verus!
