//! The canonical encoder: assembles an instruction word for every
//! encodable decoded instruction, and the proof that decoding inverts
//! it.  Also the signedness of decoded immediates: the immediate of a
//! branch, load or store is negative exactly when the instruction
//! word's sign bit is set.

use vstd::prelude::*;
use crate::instruction::{
    Instruction, decode, decode_wrapped, decode_branch, decode_load, decode_store, jal_field,
    branch_field, store_field, imm12_of, sext12_i32, sext12_u32, sext20_u32,
};
use crate::util::{s32, sign_ext_val, lemma_wrap32_small};
use vstd::arithmetic::power2::{pow2, lemma2_to64};
use vstd::arithmetic::div_mod::lemma_small_mod;

verus! {

// Assembly of each encoding format from its fields.
pub open spec fn enc_r(funct7: u32, rs2: usize, rs1: usize, funct3: u32, rd: usize, opcode: u32) -> u32 {
    (funct7 << 25) | ((rs2 as u32) << 20) | ((rs1 as u32) << 15) | (funct3 << 12) | ((rd as u32)
        << 7) | opcode
}

pub open spec fn enc_i(imm12: u32, rs1: usize, funct3: u32, rd: usize, opcode: u32) -> u32 {
    (imm12 << 20) | ((rs1 as u32) << 15) | (funct3 << 12) | ((rd as u32) << 7) | opcode
}

pub open spec fn enc_s(imm12: u32, rs2: usize, rs1: usize, funct3: u32) -> u32 {
    ((imm12 >> 5) << 25) | ((rs2 as u32) << 20) | ((rs1 as u32) << 15) | (funct3 << 12) | ((imm12
        & 0x1f) << 7) | 0b010_0011
}

pub open spec fn enc_b(imm12: u32, rs2: usize, rs1: usize, funct3: u32) -> u32 {
    (((imm12 >> 11) & 1) << 31) | (((imm12 >> 4) & 0x3f) << 25) | ((rs2 as u32) << 20) | ((
    rs1 as u32) << 15) | (funct3 << 12) | ((imm12 & 0xf) << 8) | (((imm12 >> 10) & 1) << 7)
        | 0b110_0011
}

pub open spec fn enc_u(imm20: u32, rd: usize, opcode: u32) -> u32 {
    (imm20 << 12) | ((rd as u32) << 7) | opcode
}

pub open spec fn enc_j(field20: u32, rd: usize) -> u32 {
    (((field20 >> 19) & 1) << 31) | ((field20 & 0x3ff) << 21) | (((field20 >> 10) & 1) << 20) | (((
    field20 >> 11) & 0xff) << 12) | ((rd as u32) << 7) | 0b110_1111
}

pub open spec fn enc_sys(imm12: u32, funct3: u32) -> u32 {
    (imm12 << 20) | (funct3 << 12) | 0b111_0011
}

pub open spec fn enc_a(funct5: u32, rs2: usize, rs1: usize, rd: usize) -> u32 {
    (funct5 << 27) | ((rs2 as u32) << 20) | ((rs1 as u32) << 15) | (0b010u32 << 12) | ((rd as u32)
        << 7) | 0b010_1111
}

/// A signed 12-bit container value, as stored by the decoder.
pub open spec fn imm12_signed_ok(imm: i32) -> bool {
    -0x800 <= imm < 0x800
}

/// A sign-extended 12-bit value in a 32-bit container.
pub open spec fn imm12_extended_ok(imm: u32) -> bool {
    imm < 0x800 || imm >= 0xFFFF_F800
}

/// A sign-extended 20-bit value in a 32-bit container.
pub open spec fn imm20_extended_ok(imm: u32) -> bool {
    imm < 0x8_0000 || imm >= 0xFFF8_0000
}

/// The operand values the canonical encoder accepts: register indices
/// below 32 and immediates within their encoded width.
pub open spec fn encodable(i: Instruction) -> bool {
    match i {
        Instruction::LUI(rd, imm) => rd < 32 && imm < 0x10_0000,
        Instruction::AUIPC(rd, imm) => rd < 32 && imm < 0x10_0000,
        Instruction::JAL(rd, imm) => rd < 32 && imm20_extended_ok(imm),
        Instruction::JALR(rd, rs1, imm) => rd < 32 && rs1 < 32 && imm12_signed_ok(imm),
        Instruction::BEQ(rs1, rs2, imm) => rs1 < 32 && rs2 < 32 && imm12_extended_ok(imm),
        Instruction::BNE(rs1, rs2, imm) => rs1 < 32 && rs2 < 32 && imm12_extended_ok(imm),
        Instruction::BLT(rs1, rs2, imm) => rs1 < 32 && rs2 < 32 && imm12_extended_ok(imm),
        Instruction::BGE(rs1, rs2, imm) => rs1 < 32 && rs2 < 32 && imm12_extended_ok(imm),
        Instruction::BLTU(rs1, rs2, imm) => rs1 < 32 && rs2 < 32 && imm12_extended_ok(imm),
        Instruction::BGEU(rs1, rs2, imm) => rs1 < 32 && rs2 < 32 && imm12_extended_ok(imm),
        Instruction::LB(rd, rs1, imm) => rd < 32 && rs1 < 32 && imm12_signed_ok(imm),
        Instruction::LH(rd, rs1, imm) => rd < 32 && rs1 < 32 && imm12_signed_ok(imm),
        Instruction::LW(rd, rs1, imm) => rd < 32 && rs1 < 32 && imm12_signed_ok(imm),
        Instruction::LBU(rd, rs1, imm) => rd < 32 && rs1 < 32 && imm12_signed_ok(imm),
        Instruction::LHU(rd, rs1, imm) => rd < 32 && rs1 < 32 && imm12_signed_ok(imm),
        Instruction::SB(rs1, rs2, imm) => rs1 < 32 && rs2 < 32 && imm12_signed_ok(imm),
        Instruction::SH(rs1, rs2, imm) => rs1 < 32 && rs2 < 32 && imm12_signed_ok(imm),
        Instruction::SW(rs1, rs2, imm) => rs1 < 32 && rs2 < 32 && imm12_signed_ok(imm),
        Instruction::ADDI(rd, rs1, imm) => rd < 32 && rs1 < 32 && imm12_extended_ok(imm),
        Instruction::SLTI(rd, rs1, imm) => rd < 32 && rs1 < 32 && imm12_extended_ok(imm),
        Instruction::SLTIU(rd, rs1, imm) => rd < 32 && rs1 < 32 && imm12_extended_ok(imm),
        Instruction::XORI(rd, rs1, imm) => rd < 32 && rs1 < 32 && imm12_extended_ok(imm),
        Instruction::ORI(rd, rs1, imm) => rd < 32 && rs1 < 32 && imm12_extended_ok(imm),
        Instruction::ANDI(rd, rs1, imm) => rd < 32 && rs1 < 32 && imm12_extended_ok(imm),
        Instruction::SLLI(rd, rs1, sh) => rd < 32 && rs1 < 32 && sh < 32,
        Instruction::SRLI(rd, rs1, sh) => rd < 32 && rs1 < 32 && sh < 32,
        Instruction::SRAI(rd, rs1, sh) => rd < 32 && rs1 < 32 && sh < 32,
        Instruction::ADD(rd, rs1, rs2) => rd < 32 && rs1 < 32 && rs2 < 32,
        Instruction::SUB(rd, rs1, rs2) => rd < 32 && rs1 < 32 && rs2 < 32,
        Instruction::SLL(rd, rs1, rs2) => rd < 32 && rs1 < 32 && rs2 < 32,
        Instruction::SLT(rd, rs1, rs2) => rd < 32 && rs1 < 32 && rs2 < 32,
        Instruction::SLTU(rd, rs1, rs2) => rd < 32 && rs1 < 32 && rs2 < 32,
        Instruction::XOR(rd, rs1, rs2) => rd < 32 && rs1 < 32 && rs2 < 32,
        Instruction::SRL(rd, rs1, rs2) => rd < 32 && rs1 < 32 && rs2 < 32,
        Instruction::SRA(rd, rs1, rs2) => rd < 32 && rs1 < 32 && rs2 < 32,
        Instruction::OR(rd, rs1, rs2) => rd < 32 && rs1 < 32 && rs2 < 32,
        Instruction::AND(rd, rs1, rs2) => rd < 32 && rs1 < 32 && rs2 < 32,
        Instruction::EBREAK => true,
        Instruction::MUL(rd, rs1, rs2) => rd < 32 && rs1 < 32 && rs2 < 32,
        Instruction::MULH(rd, rs1, rs2) => rd < 32 && rs1 < 32 && rs2 < 32,
        Instruction::MULHSU(rd, rs1, rs2) => rd < 32 && rs1 < 32 && rs2 < 32,
        Instruction::MULHU(rd, rs1, rs2) => rd < 32 && rs1 < 32 && rs2 < 32,
        Instruction::DIV(rd, rs1, rs2) => rd < 32 && rs1 < 32 && rs2 < 32,
        Instruction::DIVU(rd, rs1, rs2) => rd < 32 && rs1 < 32 && rs2 < 32,
        Instruction::REM(rd, rs1, rs2) => rd < 32 && rs1 < 32 && rs2 < 32,
        Instruction::REMU(rd, rs1, rs2) => rd < 32 && rs1 < 32 && rs2 < 32,
        Instruction::LRW(rd, rs1, rs2) => rd < 32 && rs1 < 32 && rs2 == 0,
        Instruction::SCW(rd, rs1, rs2) => rd < 32 && rs1 < 32 && rs2 < 32,
        Instruction::AMOSWAPW(rd, rs1, rs2) => rd < 32 && rs1 < 32 && rs2 < 32,
        Instruction::AMOADDW(rd, rs1, rs2) => rd < 32 && rs1 < 32 && rs2 < 32,
        Instruction::AMOXORW(rd, rs1, rs2) => rd < 32 && rs1 < 32 && rs2 < 32,
        Instruction::AMOANDW(rd, rs1, rs2) => rd < 32 && rs1 < 32 && rs2 < 32,
        Instruction::AMOORW(rd, rs1, rs2) => rd < 32 && rs1 < 32 && rs2 < 32,
        Instruction::AMOMINW(rd, rs1, rs2) => rd < 32 && rs1 < 32 && rs2 < 32,
        Instruction::AMOMAXW(rd, rs1, rs2) => rd < 32 && rs1 < 32 && rs2 < 32,
        Instruction::AMOMINUW(rd, rs1, rs2) => rd < 32 && rs1 < 32 && rs2 < 32,
        Instruction::AMOMAXUW(rd, rs1, rs2) => rd < 32 && rs1 < 32 && rs2 < 32,
        Instruction::MRET => true,
        Instruction::CSRRW => true,
        Instruction::CSRRS => true,
        Instruction::CSRRC => true,
        Instruction::CSRRWI => true,
        Instruction::CSRRSI => true,
        Instruction::CSRRCI => true,
        Instruction::INVALID => false,
    }
}

/// The canonical encoding of a decoded instruction.
pub open spec fn encode(i: Instruction) -> u32 {
    match i {
        Instruction::LUI(rd, imm) => enc_u(imm, rd, 0b011_0111),
        Instruction::AUIPC(rd, imm) => enc_u(imm, rd, 0b001_0111),
        Instruction::JAL(rd, imm) => enc_j(imm & 0xF_FFFF, rd),
        Instruction::JALR(rd, rs1, imm) => enc_i((imm as u32) & 0xfff, rs1, 0b000, rd, 0b110_0111),
        Instruction::BEQ(rs1, rs2, imm) => enc_b(imm & 0xfff, rs2, rs1, 0b000),
        Instruction::BNE(rs1, rs2, imm) => enc_b(imm & 0xfff, rs2, rs1, 0b001),
        Instruction::BLT(rs1, rs2, imm) => enc_b(imm & 0xfff, rs2, rs1, 0b100),
        Instruction::BGE(rs1, rs2, imm) => enc_b(imm & 0xfff, rs2, rs1, 0b101),
        Instruction::BLTU(rs1, rs2, imm) => enc_b(imm & 0xfff, rs2, rs1, 0b110),
        Instruction::BGEU(rs1, rs2, imm) => enc_b(imm & 0xfff, rs2, rs1, 0b111),
        Instruction::LB(rd, rs1, imm) => enc_i((imm as u32) & 0xfff, rs1, 0b000, rd, 0b000_0011),
        Instruction::LH(rd, rs1, imm) => enc_i((imm as u32) & 0xfff, rs1, 0b001, rd, 0b000_0011),
        Instruction::LW(rd, rs1, imm) => enc_i((imm as u32) & 0xfff, rs1, 0b010, rd, 0b000_0011),
        Instruction::LBU(rd, rs1, imm) => enc_i((imm as u32) & 0xfff, rs1, 0b100, rd, 0b000_0011),
        Instruction::LHU(rd, rs1, imm) => enc_i((imm as u32) & 0xfff, rs1, 0b101, rd, 0b000_0011),
        Instruction::SB(rs1, rs2, imm) => enc_s((imm as u32) & 0xfff, rs2, rs1, 0b000),
        Instruction::SH(rs1, rs2, imm) => enc_s((imm as u32) & 0xfff, rs2, rs1, 0b001),
        Instruction::SW(rs1, rs2, imm) => enc_s((imm as u32) & 0xfff, rs2, rs1, 0b010),
        Instruction::ADDI(rd, rs1, imm) => enc_i(imm & 0xfff, rs1, 0b000, rd, 0b001_0011),
        Instruction::SLTI(rd, rs1, imm) => enc_i(imm & 0xfff, rs1, 0b010, rd, 0b001_0011),
        Instruction::SLTIU(rd, rs1, imm) => enc_i(imm & 0xfff, rs1, 0b011, rd, 0b001_0011),
        Instruction::XORI(rd, rs1, imm) => enc_i(imm & 0xfff, rs1, 0b100, rd, 0b001_0011),
        Instruction::ORI(rd, rs1, imm) => enc_i(imm & 0xfff, rs1, 0b110, rd, 0b001_0011),
        Instruction::ANDI(rd, rs1, imm) => enc_i(imm & 0xfff, rs1, 0b111, rd, 0b001_0011),
        Instruction::SLLI(rd, rs1, sh) => enc_i(sh, rs1, 0b001, rd, 0b001_0011),
        Instruction::SRLI(rd, rs1, sh) => enc_i(sh, rs1, 0b101, rd, 0b001_0011),
        Instruction::SRAI(rd, rs1, sh) => enc_i(sh | 0x400, rs1, 0b101, rd, 0b001_0011),
        Instruction::ADD(rd, rs1, rs2) => enc_r(0b000_0000, rs2, rs1, 0b000, rd, 0b011_0011),
        Instruction::SUB(rd, rs1, rs2) => enc_r(0b010_0000, rs2, rs1, 0b000, rd, 0b011_0011),
        Instruction::SLL(rd, rs1, rs2) => enc_r(0b000_0000, rs2, rs1, 0b001, rd, 0b011_0011),
        Instruction::SLT(rd, rs1, rs2) => enc_r(0b000_0000, rs2, rs1, 0b010, rd, 0b011_0011),
        Instruction::SLTU(rd, rs1, rs2) => enc_r(0b000_0000, rs2, rs1, 0b011, rd, 0b011_0011),
        Instruction::XOR(rd, rs1, rs2) => enc_r(0b000_0000, rs2, rs1, 0b100, rd, 0b011_0011),
        Instruction::SRL(rd, rs1, rs2) => enc_r(0b000_0000, rs2, rs1, 0b101, rd, 0b011_0011),
        Instruction::SRA(rd, rs1, rs2) => enc_r(0b010_0000, rs2, rs1, 0b101, rd, 0b011_0011),
        Instruction::OR(rd, rs1, rs2) => enc_r(0b000_0000, rs2, rs1, 0b110, rd, 0b011_0011),
        Instruction::AND(rd, rs1, rs2) => enc_r(0b000_0000, rs2, rs1, 0b111, rd, 0b011_0011),
        Instruction::EBREAK => enc_sys(0b1, 0b000),
        Instruction::MUL(rd, rs1, rs2) => enc_r(0b000_0001, rs2, rs1, 0b000, rd, 0b011_0011),
        Instruction::MULH(rd, rs1, rs2) => enc_r(0b000_0001, rs2, rs1, 0b001, rd, 0b011_0011),
        Instruction::MULHSU(rd, rs1, rs2) => enc_r(0b000_0001, rs2, rs1, 0b010, rd, 0b011_0011),
        Instruction::MULHU(rd, rs1, rs2) => enc_r(0b000_0001, rs2, rs1, 0b011, rd, 0b011_0011),
        Instruction::DIV(rd, rs1, rs2) => enc_r(0b000_0001, rs2, rs1, 0b100, rd, 0b011_0011),
        Instruction::DIVU(rd, rs1, rs2) => enc_r(0b000_0001, rs2, rs1, 0b101, rd, 0b011_0011),
        Instruction::REM(rd, rs1, rs2) => enc_r(0b000_0001, rs2, rs1, 0b110, rd, 0b011_0011),
        Instruction::REMU(rd, rs1, rs2) => enc_r(0b000_0001, rs2, rs1, 0b111, rd, 0b011_0011),
        Instruction::LRW(rd, rs1, _) => enc_a(0b0_0010, 0, rs1, rd),
        Instruction::SCW(rd, rs1, rs2) => enc_a(0b0_0011, rs2, rs1, rd),
        Instruction::AMOSWAPW(rd, rs1, rs2) => enc_a(0b0_0001, rs2, rs1, rd),
        Instruction::AMOADDW(rd, rs1, rs2) => enc_a(0b0_0000, rs2, rs1, rd),
        Instruction::AMOXORW(rd, rs1, rs2) => enc_a(0b0_0100, rs2, rs1, rd),
        Instruction::AMOANDW(rd, rs1, rs2) => enc_a(0b0_1100, rs2, rs1, rd),
        Instruction::AMOORW(rd, rs1, rs2) => enc_a(0b0_1000, rs2, rs1, rd),
        Instruction::AMOMINW(rd, rs1, rs2) => enc_a(0b1_0000, rs2, rs1, rd),
        Instruction::AMOMAXW(rd, rs1, rs2) => enc_a(0b1_0100, rs2, rs1, rd),
        Instruction::AMOMINUW(rd, rs1, rs2) => enc_a(0b1_1000, rs2, rs1, rd),
        Instruction::AMOMAXUW(rd, rs1, rs2) => enc_a(0b1_1100, rs2, rs1, rd),
        Instruction::MRET => enc_sys(0b0011_0000_0010, 0b000),
        Instruction::CSRRW => enc_sys(0, 0b001),
        Instruction::CSRRS => enc_sys(0, 0b010),
        Instruction::CSRRC => enc_sys(0, 0b011),
        Instruction::CSRRWI => enc_sys(0, 0b101),
        Instruction::CSRRSI => enc_sys(0, 0b110),
        Instruction::CSRRCI => enc_sys(0, 0b111),
        Instruction::INVALID => 0,
    }
}

/// Field extraction inverts R-type assembly.
proof fn lemma_rtype(funct7: u32, rs2: usize, rs1: usize, funct3: u32, rd: usize, opcode: u32)
    by (bit_vector)
    requires
        funct7 < 128,
        rs2 < 32,
        rs1 < 32,
        funct3 < 8,
        rd < 32,
        opcode < 128,
    ensures
        ({
            let w = (funct7 << 25) | ((rs2 as u32) << 20) | ((rs1 as u32) << 15) | (funct3 << 12)
                | ((rd as u32) << 7) | opcode;
            &&& w & 0b111_1111 == opcode
            &&& ((w >> 7) & 0b1_1111) as usize == rd
            &&& (w >> 12) & 0b111 == funct3
            &&& ((w >> 15) & 0b1_1111) as usize == rs1
            &&& ((w >> 20) & 0b1_1111) as usize == rs2
            &&& (w >> 25) & 0b111_1111 == funct7
            &&& (w >> 27) & 0b1_1111 == funct7 >> 2
        }),
{
}

/// Field extraction inverts I-type assembly.
proof fn lemma_itype(imm12: u32, rs1: usize, funct3: u32, rd: usize, opcode: u32)
    by (bit_vector)
    requires
        imm12 < 0x1000,
        rs1 < 32,
        funct3 < 8,
        rd < 32,
        opcode < 128,
    ensures
        ({
            let w = (imm12 << 20) | ((rs1 as u32) << 15) | (funct3 << 12) | ((rd as u32) << 7)
                | opcode;
            &&& w & 0b111_1111 == opcode
            &&& ((w >> 7) & 0b1_1111) as usize == rd
            &&& (w >> 12) & 0b111 == funct3
            &&& ((w >> 15) & 0b1_1111) as usize == rs1
            &&& (w >> 20) & 0b1111_1111_1111 == imm12
            &&& (w >> 25) & 0b111_1111 == imm12 >> 5
            &&& imm12 < 32 ==> imm12 & 0b1_1111 == imm12 && imm12 >> 5 == 0
            &&& imm12 < 0x420 && imm12 >= 0x400 ==> (imm12 & 0b1_1111) == imm12 - 0x400
                && imm12 >> 5 == 0b010_0000
        }),
{
}

/// Field extraction inverts S-type assembly.
proof fn lemma_stype(imm12: u32, rs2: usize, rs1: usize, funct3: u32)
    by (bit_vector)
    requires
        imm12 < 0x1000,
        rs2 < 32,
        rs1 < 32,
        funct3 < 8,
    ensures
        ({
            let w = ((imm12 >> 5) << 25) | ((rs2 as u32) << 20) | ((rs1 as u32) << 15) | (funct3
                << 12) | ((imm12 & 0x1f) << 7) | 0b010_0011;
            &&& w & 0b111_1111 == 0b010_0011
            &&& (w >> 12) & 0b111 == funct3
            &&& ((w >> 15) & 0b1_1111) as usize == rs1
            &&& ((w >> 20) & 0b1_1111) as usize == rs2
            &&& ((w >> 7) & 0b1_1111) | (((w >> 25) & 0b111_1111) << 5) == imm12
        }),
{
}

/// Field extraction inverts B-type assembly.
proof fn lemma_btype(imm12: u32, rs2: usize, rs1: usize, funct3: u32)
    by (bit_vector)
    requires
        imm12 < 0x1000,
        rs2 < 32,
        rs1 < 32,
        funct3 < 8,
    ensures
        ({
            let w = (((imm12 >> 11) & 1) << 31) | (((imm12 >> 4) & 0x3f) << 25) | ((rs2 as u32)
                << 20) | ((rs1 as u32) << 15) | (funct3 << 12) | ((imm12 & 0xf) << 8) | (((imm12
                >> 10) & 1) << 7) | 0b110_0011;
            &&& w & 0b111_1111 == 0b110_0011
            &&& (w >> 12) & 0b111 == funct3
            &&& ((w >> 15) & 0b1_1111) as usize == rs1
            &&& ((w >> 20) & 0b1_1111) as usize == rs2
            &&& ((((w >> 8) & 0b1111) | (((w >> 25) & 0b11_1111) << 4)) | (((w >> 7) & 0b1) << 10))
                | (((w >> 31) & 0b1) << 11) == imm12
        }),
{
}

/// Field extraction inverts U-type assembly.
proof fn lemma_utype(imm20: u32, rd: usize, opcode: u32)
    by (bit_vector)
    requires
        imm20 < 0x10_0000,
        rd < 32,
        opcode < 128,
    ensures
        ({
            let w = (imm20 << 12) | ((rd as u32) << 7) | opcode;
            &&& w & 0b111_1111 == opcode
            &&& ((w >> 7) & 0b1_1111) as usize == rd
            &&& (w >> 12) & 0b1111_1111_1111_1111_1111 == imm20
        }),
{
}

/// Field extraction inverts J-type assembly.
proof fn lemma_jtype(field20: u32, rd: usize)
    by (bit_vector)
    requires
        field20 < 0x10_0000,
        rd < 32,
    ensures
        ({
            let w = (((field20 >> 19) & 1) << 31) | ((field20 & 0x3ff) << 21) | (((field20 >> 10)
                & 1) << 20) | (((field20 >> 11) & 0xff) << 12) | ((rd as u32) << 7) | 0b110_1111;
            &&& w & 0b111_1111 == 0b110_1111
            &&& ((w >> 7) & 0b1_1111) as usize == rd
            &&& ((((w >> 31) & 0b1) << 19) | (((w >> 20) & 0b1) << 10) | ((w >> 21)
                & 0b11_1111_1111)) | (((w >> 12) & 0b1111_1111) << 11) == field20
        }),
{
}

/// Field extraction inverts system-instruction assembly.
proof fn lemma_systype(imm12: u32, funct3: u32)
    by (bit_vector)
    requires
        imm12 < 0x1000,
        funct3 < 8,
    ensures
        ({
            let w = (imm12 << 20) | (funct3 << 12) | 0b111_0011;
            &&& w & 0b111_1111 == 0b111_0011
            &&& (w >> 12) & 0b111 == funct3
            &&& (w >> 20) & 0b1111_1111_1111 == imm12
        }),
{
}

/// Field extraction inverts atomic-instruction assembly.
proof fn lemma_atype(funct5: u32, rs2: usize, rs1: usize, rd: usize)
    by (bit_vector)
    requires
        funct5 < 32,
        rs2 < 32,
        rs1 < 32,
        rd < 32,
    ensures
        ({
            let w = (funct5 << 27) | ((rs2 as u32) << 20) | ((rs1 as u32) << 15) | (0b010u32 << 12)
                | ((rd as u32) << 7) | 0b010_1111;
            &&& w & 0b111_1111 == 0b010_1111
            &&& ((w >> 7) & 0b1_1111) as usize == rd
            &&& (w >> 12) & 0b111 == 0b010
            &&& ((w >> 15) & 0b1_1111) as usize == rs1
            &&& ((w >> 20) & 0b1_1111) as usize == rs2
            &&& (w >> 27) & 0b1_1111 == funct5
        }),
{
}

/// Masking a signed 12-bit container to its field bits.
proof fn lemma_imm12_signed_field(imm: i32)
    by (bit_vector)
    requires
        -0x800 <= imm < 0x800,
    ensures
        (imm as u32) & 0xfff < 0x1000,
        imm >= 0 ==> ((imm as u32) & 0xfff) == imm,
        imm < 0 ==> ((imm as u32) & 0xfff) == imm + 0x1000,
{
}

/// Masking a sign-extended 12-bit container to its field bits.
proof fn lemma_imm12_extended_field(imm: u32)
    by (bit_vector)
    requires
        imm < 0x800 || imm >= 0xFFFF_F800,
    ensures
        imm & 0xfff < 0x1000,
        imm < 0x800 ==> (imm & 0xfff) == imm,
        imm >= 0xFFFF_F800 ==> (imm & 0xfff) == imm - 0xFFFF_F000,
{
}

/// Masking a sign-extended 20-bit container to its field bits.
proof fn lemma_imm20_extended_field(imm: u32)
    by (bit_vector)
    requires
        imm < 0x8_0000 || imm >= 0xFFF8_0000,
    ensures
        imm & 0xF_FFFF < 0x10_0000,
        imm < 0x8_0000 ==> (imm & 0xF_FFFF) == imm,
        imm >= 0xFFF8_0000 ==> (imm & 0xF_FFFF) == imm - 0xFFF0_0000,
{
}

/// Sign extension inverts field masking for a signed 12-bit container.
proof fn lemma_sext12_i32_roundtrip(imm: i32)
    requires
        imm12_signed_ok(imm),
    ensures
        sext12_i32((imm as u32) & 0xfff) == imm,
{
    lemma_imm12_signed_field(imm);
    lemma2_to64();
    lemma_small_mod(((imm as u32) & 0xfff) as nat, pow2(12));
}

/// Sign extension inverts field masking for an extended 12-bit
/// container.
proof fn lemma_sext12_u32_roundtrip(imm: u32)
    requires
        imm12_extended_ok(imm),
    ensures
        sext12_u32(imm & 0xfff) == imm,
{
    lemma_imm12_extended_field(imm);
    lemma2_to64();
    lemma_small_mod((imm & 0xfff) as nat, pow2(12));
    lemma_wrap32_small(sign_ext_val(imm & 0xfff, 12));
}

/// Sign extension inverts field masking for an extended 20-bit
/// container.
proof fn lemma_sext20_u32_roundtrip(imm: u32)
    requires
        imm20_extended_ok(imm),
    ensures
        sext20_u32(imm & 0xF_FFFF) == imm,
{
    lemma_imm20_extended_field(imm);
    lemma2_to64();
    lemma_small_mod((imm & 0xF_FFFF) as nat, pow2(20));
    lemma_wrap32_small(sign_ext_val(imm & 0xF_FFFF, 20));
}

/// A word whose opcode field ends in binary `11` is a full encoding,
/// and every base opcode the encoder emits ends so.
proof fn lemma_opcode_low_bits(w: u32)
    by (bit_vector)
    ensures
        (w & 0b111_1111) & 0b11 == w & 0b11,
        0b011_0111u32 & 0b11 == 0b11,
        0b001_0111u32 & 0b11 == 0b11,
        0b110_1111u32 & 0b11 == 0b11,
        0b110_0111u32 & 0b11 == 0b11,
        0b110_0011u32 & 0b11 == 0b11,
        0b000_0011u32 & 0b11 == 0b11,
        0b010_0011u32 & 0b11 == 0b11,
        0b001_0011u32 & 0b11 == 0b11,
        0b011_0011u32 & 0b11 == 0b11,
        0b111_0011u32 & 0b11 == 0b11,
        0b010_1111u32 & 0b11 == 0b11,
{
}

/// Round-trip: decoding inverts the canonical encoder, for every
/// encodable instruction and operand tuple.
pub proof fn lemma_decode_encode(i: Instruction)
    requires
        encodable(i),
    ensures
        decode(encode(i)) == i,
        decode_wrapped(encode(i)).instruction == i,
        decode_wrapped(encode(i)).size == 4,
{
    lemma_opcode_low_bits(encode(i));
    match i {
        Instruction::LUI(rd, imm) => {
            lemma_utype(imm, rd, 0b011_0111);
        },
        Instruction::AUIPC(rd, imm) => {
            lemma_utype(imm, rd, 0b001_0111);
        },
        Instruction::JAL(rd, imm) => {
            lemma_imm20_extended_field(imm);
            lemma_jtype(imm & 0xF_FFFF, rd);
            lemma_sext20_u32_roundtrip(imm);
        },
        Instruction::JALR(rd, rs1, imm) => {
            lemma_imm12_signed_field(imm);
            lemma_itype((imm as u32) & 0xfff, rs1, 0b000, rd, 0b110_0111);
            lemma_sext12_i32_roundtrip(imm);
        },
        Instruction::BEQ(rs1, rs2, imm) => {
            lemma_branch_case(rs1, rs2, imm, 0b000);
        },
        Instruction::BNE(rs1, rs2, imm) => {
            lemma_branch_case(rs1, rs2, imm, 0b001);
        },
        Instruction::BLT(rs1, rs2, imm) => {
            lemma_branch_case(rs1, rs2, imm, 0b100);
        },
        Instruction::BGE(rs1, rs2, imm) => {
            lemma_branch_case(rs1, rs2, imm, 0b101);
        },
        Instruction::BLTU(rs1, rs2, imm) => {
            lemma_branch_case(rs1, rs2, imm, 0b110);
        },
        Instruction::BGEU(rs1, rs2, imm) => {
            lemma_branch_case(rs1, rs2, imm, 0b111);
        },
        Instruction::LB(rd, rs1, imm) => {
            lemma_load_case(rd, rs1, imm, 0b000);
        },
        Instruction::LH(rd, rs1, imm) => {
            lemma_load_case(rd, rs1, imm, 0b001);
        },
        Instruction::LW(rd, rs1, imm) => {
            lemma_load_case(rd, rs1, imm, 0b010);
        },
        Instruction::LBU(rd, rs1, imm) => {
            lemma_load_case(rd, rs1, imm, 0b100);
        },
        Instruction::LHU(rd, rs1, imm) => {
            lemma_load_case(rd, rs1, imm, 0b101);
        },
        Instruction::SB(rs1, rs2, imm) => {
            lemma_store_case(rs1, rs2, imm, 0b000);
        },
        Instruction::SH(rs1, rs2, imm) => {
            lemma_store_case(rs1, rs2, imm, 0b001);
        },
        Instruction::SW(rs1, rs2, imm) => {
            lemma_store_case(rs1, rs2, imm, 0b010);
        },
        Instruction::ADDI(rd, rs1, imm) => {
            lemma_alu_imm_case(rd, rs1, imm, 0b000);
        },
        Instruction::SLTI(rd, rs1, imm) => {
            lemma_alu_imm_case(rd, rs1, imm, 0b010);
        },
        Instruction::SLTIU(rd, rs1, imm) => {
            lemma_alu_imm_case(rd, rs1, imm, 0b011);
        },
        Instruction::XORI(rd, rs1, imm) => {
            lemma_alu_imm_case(rd, rs1, imm, 0b100);
        },
        Instruction::ORI(rd, rs1, imm) => {
            lemma_alu_imm_case(rd, rs1, imm, 0b110);
        },
        Instruction::ANDI(rd, rs1, imm) => {
            lemma_alu_imm_case(rd, rs1, imm, 0b111);
        },
        Instruction::SLLI(rd, rs1, sh) => {
            lemma_itype(sh, rs1, 0b001, rd, 0b001_0011);
        },
        Instruction::SRLI(rd, rs1, sh) => {
            lemma_itype(sh, rs1, 0b101, rd, 0b001_0011);
        },
        Instruction::SRAI(rd, rs1, sh) => {
            assert((sh | 0x400) < 0x420 && (sh | 0x400) >= 0x400 && (sh | 0x400) - 0x400 == sh)
                by (bit_vector)
                requires
                    sh < 32,
            ;
            lemma_itype(sh | 0x400, rs1, 0b101, rd, 0b001_0011);
        },
        Instruction::EBREAK => {
            lemma_systype(0b1, 0b000);
        },
        Instruction::MRET => {
            lemma_systype(0b0011_0000_0010, 0b000);
        },
        Instruction::CSRRW => {
            lemma_systype(0, 0b001);
        },
        Instruction::CSRRS => {
            lemma_systype(0, 0b010);
        },
        Instruction::CSRRC => {
            lemma_systype(0, 0b011);
        },
        Instruction::CSRRWI => {
            lemma_systype(0, 0b101);
        },
        Instruction::CSRRSI => {
            lemma_systype(0, 0b110);
        },
        Instruction::CSRRCI => {
            lemma_systype(0, 0b111);
        },
        Instruction::LRW(rd, rs1, _) => {
            lemma_atype(0b0_0010, 0, rs1, rd);
        },
        Instruction::SCW(rd, rs1, rs2) => {
            lemma_atype(0b0_0011, rs2, rs1, rd);
        },
        Instruction::AMOSWAPW(rd, rs1, rs2) => {
            lemma_atype(0b0_0001, rs2, rs1, rd);
        },
        Instruction::AMOADDW(rd, rs1, rs2) => {
            lemma_atype(0b0_0000, rs2, rs1, rd);
        },
        Instruction::AMOXORW(rd, rs1, rs2) => {
            lemma_atype(0b0_0100, rs2, rs1, rd);
        },
        Instruction::AMOANDW(rd, rs1, rs2) => {
            lemma_atype(0b0_1100, rs2, rs1, rd);
        },
        Instruction::AMOORW(rd, rs1, rs2) => {
            lemma_atype(0b0_1000, rs2, rs1, rd);
        },
        Instruction::AMOMINW(rd, rs1, rs2) => {
            lemma_atype(0b1_0000, rs2, rs1, rd);
        },
        Instruction::AMOMAXW(rd, rs1, rs2) => {
            lemma_atype(0b1_0100, rs2, rs1, rd);
        },
        Instruction::AMOMINUW(rd, rs1, rs2) => {
            lemma_atype(0b1_1000, rs2, rs1, rd);
        },
        Instruction::AMOMAXUW(rd, rs1, rs2) => {
            lemma_atype(0b1_1100, rs2, rs1, rd);
        },
        Instruction::ADD(rd, rs1, rs2) => {
            lemma_rtype(0b000_0000, rs2, rs1, 0b000, rd, 0b011_0011);
        },
        Instruction::SUB(rd, rs1, rs2) => {
            lemma_rtype(0b010_0000, rs2, rs1, 0b000, rd, 0b011_0011);
        },
        Instruction::SLL(rd, rs1, rs2) => {
            lemma_rtype(0b000_0000, rs2, rs1, 0b001, rd, 0b011_0011);
        },
        Instruction::SLT(rd, rs1, rs2) => {
            lemma_rtype(0b000_0000, rs2, rs1, 0b010, rd, 0b011_0011);
        },
        Instruction::SLTU(rd, rs1, rs2) => {
            lemma_rtype(0b000_0000, rs2, rs1, 0b011, rd, 0b011_0011);
        },
        Instruction::XOR(rd, rs1, rs2) => {
            lemma_rtype(0b000_0000, rs2, rs1, 0b100, rd, 0b011_0011);
        },
        Instruction::SRL(rd, rs1, rs2) => {
            lemma_rtype(0b000_0000, rs2, rs1, 0b101, rd, 0b011_0011);
        },
        Instruction::SRA(rd, rs1, rs2) => {
            lemma_rtype(0b010_0000, rs2, rs1, 0b101, rd, 0b011_0011);
        },
        Instruction::OR(rd, rs1, rs2) => {
            lemma_rtype(0b000_0000, rs2, rs1, 0b110, rd, 0b011_0011);
        },
        Instruction::AND(rd, rs1, rs2) => {
            lemma_rtype(0b000_0000, rs2, rs1, 0b111, rd, 0b011_0011);
        },
        Instruction::MUL(rd, rs1, rs2) => {
            lemma_rtype(0b000_0001, rs2, rs1, 0b000, rd, 0b011_0011);
        },
        Instruction::MULH(rd, rs1, rs2) => {
            lemma_rtype(0b000_0001, rs2, rs1, 0b001, rd, 0b011_0011);
        },
        Instruction::MULHSU(rd, rs1, rs2) => {
            lemma_rtype(0b000_0001, rs2, rs1, 0b010, rd, 0b011_0011);
        },
        Instruction::MULHU(rd, rs1, rs2) => {
            lemma_rtype(0b000_0001, rs2, rs1, 0b011, rd, 0b011_0011);
        },
        Instruction::DIV(rd, rs1, rs2) => {
            lemma_rtype(0b000_0001, rs2, rs1, 0b100, rd, 0b011_0011);
        },
        Instruction::DIVU(rd, rs1, rs2) => {
            lemma_rtype(0b000_0001, rs2, rs1, 0b101, rd, 0b011_0011);
        },
        Instruction::REM(rd, rs1, rs2) => {
            lemma_rtype(0b000_0001, rs2, rs1, 0b110, rd, 0b011_0011);
        },
        Instruction::REMU(rd, rs1, rs2) => {
            lemma_rtype(0b000_0001, rs2, rs1, 0b111, rd, 0b011_0011);
        },
        Instruction::INVALID => {},
    }
}

/// The shared branch case of the round-trip proof.
proof fn lemma_branch_case(rs1: usize, rs2: usize, imm: u32, funct3: u32)
    requires
        rs1 < 32,
        rs2 < 32,
        funct3 < 8,
        imm12_extended_ok(imm),
    ensures
        branch_field(enc_b(imm & 0xfff, rs2, rs1, funct3)) == imm & 0xfff,
        sext12_u32(imm & 0xfff) == imm,
        enc_b(imm & 0xfff, rs2, rs1, funct3) & 0b111_1111 == 0b110_0011,
        (enc_b(imm & 0xfff, rs2, rs1, funct3) >> 12) & 0b111 == funct3,
        ((enc_b(imm & 0xfff, rs2, rs1, funct3) >> 15) & 0b1_1111) as usize == rs1,
        ((enc_b(imm & 0xfff, rs2, rs1, funct3) >> 20) & 0b1_1111) as usize == rs2,
{
    lemma_imm12_extended_field(imm);
    lemma_btype(imm & 0xfff, rs2, rs1, funct3);
    lemma_sext12_u32_roundtrip(imm);
}

/// The shared load case of the round-trip proof.
proof fn lemma_load_case(rd: usize, rs1: usize, imm: i32, funct3: u32)
    requires
        rd < 32,
        rs1 < 32,
        funct3 < 8,
        imm12_signed_ok(imm),
    ensures
        imm12_of(enc_i((imm as u32) & 0xfff, rs1, funct3, rd, 0b000_0011)) == (imm as u32) & 0xfff,
        sext12_i32((imm as u32) & 0xfff) == imm,
        enc_i((imm as u32) & 0xfff, rs1, funct3, rd, 0b000_0011) & 0b111_1111 == 0b000_0011,
        (enc_i((imm as u32) & 0xfff, rs1, funct3, rd, 0b000_0011) >> 12) & 0b111 == funct3,
        ((enc_i((imm as u32) & 0xfff, rs1, funct3, rd, 0b000_0011) >> 7) & 0b1_1111) as usize == rd,
        ((enc_i((imm as u32) & 0xfff, rs1, funct3, rd, 0b000_0011) >> 15) & 0b1_1111) as usize
            == rs1,
{
    lemma_imm12_signed_field(imm);
    lemma_itype((imm as u32) & 0xfff, rs1, funct3, rd, 0b000_0011);
    lemma_sext12_i32_roundtrip(imm);
}

/// The shared store case of the round-trip proof.
proof fn lemma_store_case(rs1: usize, rs2: usize, imm: i32, funct3: u32)
    requires
        rs1 < 32,
        rs2 < 32,
        funct3 < 8,
        imm12_signed_ok(imm),
    ensures
        store_field(enc_s((imm as u32) & 0xfff, rs2, rs1, funct3)) == (imm as u32) & 0xfff,
        sext12_i32((imm as u32) & 0xfff) == imm,
        enc_s((imm as u32) & 0xfff, rs2, rs1, funct3) & 0b111_1111 == 0b010_0011,
        (enc_s((imm as u32) & 0xfff, rs2, rs1, funct3) >> 12) & 0b111 == funct3,
        ((enc_s((imm as u32) & 0xfff, rs2, rs1, funct3) >> 15) & 0b1_1111) as usize == rs1,
        ((enc_s((imm as u32) & 0xfff, rs2, rs1, funct3) >> 20) & 0b1_1111) as usize == rs2,
{
    lemma_imm12_signed_field(imm);
    lemma_stype((imm as u32) & 0xfff, rs2, rs1, funct3);
    lemma_sext12_i32_roundtrip(imm);
}

/// The shared register-immediate case of the round-trip proof.
proof fn lemma_alu_imm_case(rd: usize, rs1: usize, imm: u32, funct3: u32)
    requires
        rd < 32,
        rs1 < 32,
        funct3 < 8,
        imm12_extended_ok(imm),
    ensures
        imm12_of(enc_i(imm & 0xfff, rs1, funct3, rd, 0b001_0011)) == imm & 0xfff,
        sext12_u32(imm & 0xfff) == imm,
        enc_i(imm & 0xfff, rs1, funct3, rd, 0b001_0011) & 0b111_1111 == 0b001_0011,
        (enc_i(imm & 0xfff, rs1, funct3, rd, 0b001_0011) >> 12) & 0b111 == funct3,
        ((enc_i(imm & 0xfff, rs1, funct3, rd, 0b001_0011) >> 7) & 0b1_1111) as usize == rd,
        ((enc_i(imm & 0xfff, rs1, funct3, rd, 0b001_0011) >> 15) & 0b1_1111) as usize == rs1,
{
    lemma_imm12_extended_field(imm);
    lemma_itype(imm & 0xfff, rs1, funct3, rd, 0b001_0011);
    lemma_sext12_u32_roundtrip(imm);
}

/// Immediate signedness: for every branch, load or store encoding, the
/// decoded immediate is negative as a 32-bit signed value exactly when
/// the instruction word's sign bit (bit 31) is set.
pub proof fn lemma_immediate_signedness(code: u32)
    ensures
        decode(code) matches Instruction::LB(_, _, imm) ==> (imm < 0 <==> code >= 0x8000_0000),
        decode(code) matches Instruction::LH(_, _, imm) ==> (imm < 0 <==> code >= 0x8000_0000),
        decode(code) matches Instruction::LW(_, _, imm) ==> (imm < 0 <==> code >= 0x8000_0000),
        decode(code) matches Instruction::LBU(_, _, imm) ==> (imm < 0 <==> code >= 0x8000_0000),
        decode(code) matches Instruction::LHU(_, _, imm) ==> (imm < 0 <==> code >= 0x8000_0000),
        decode(code) matches Instruction::SB(_, _, imm) ==> (imm < 0 <==> code >= 0x8000_0000),
        decode(code) matches Instruction::SH(_, _, imm) ==> (imm < 0 <==> code >= 0x8000_0000),
        decode(code) matches Instruction::SW(_, _, imm) ==> (imm < 0 <==> code >= 0x8000_0000),
        decode(code) matches Instruction::JALR(_, _, imm) ==> (imm < 0 <==> code >= 0x8000_0000),
        decode(code) matches Instruction::BEQ(_, _, imm) ==> (s32(imm) < 0 <==> code
            >= 0x8000_0000),
        decode(code) matches Instruction::BNE(_, _, imm) ==> (s32(imm) < 0 <==> code
            >= 0x8000_0000),
        decode(code) matches Instruction::BLT(_, _, imm) ==> (s32(imm) < 0 <==> code
            >= 0x8000_0000),
        decode(code) matches Instruction::BGE(_, _, imm) ==> (s32(imm) < 0 <==> code
            >= 0x8000_0000),
        decode(code) matches Instruction::BLTU(_, _, imm) ==> (s32(imm) < 0 <==> code
            >= 0x8000_0000),
        decode(code) matches Instruction::BGEU(_, _, imm) ==> (s32(imm) < 0 <==> code
            >= 0x8000_0000),
        decode_load(code) matches Instruction::LB(_, _, imm) ==> (imm < 0 <==> code
            >= 0x8000_0000),
        decode_load(code) matches Instruction::LH(_, _, imm) ==> (imm < 0 <==> code
            >= 0x8000_0000),
        decode_load(code) matches Instruction::LW(_, _, imm) ==> (imm < 0 <==> code
            >= 0x8000_0000),
        decode_load(code) matches Instruction::LBU(_, _, imm) ==> (imm < 0 <==> code
            >= 0x8000_0000),
        decode_load(code) matches Instruction::LHU(_, _, imm) ==> (imm < 0 <==> code
            >= 0x8000_0000),
        decode_store(code) matches Instruction::SB(_, _, imm) ==> (imm < 0 <==> code
            >= 0x8000_0000),
        decode_store(code) matches Instruction::SH(_, _, imm) ==> (imm < 0 <==> code
            >= 0x8000_0000),
        decode_store(code) matches Instruction::SW(_, _, imm) ==> (imm < 0 <==> code
            >= 0x8000_0000),
        decode_branch(code) matches Instruction::BEQ(_, _, imm) ==> (s32(imm) < 0 <==> code
            >= 0x8000_0000),
        decode_branch(code) matches Instruction::BNE(_, _, imm) ==> (s32(imm) < 0 <==> code
            >= 0x8000_0000),
        decode_branch(code) matches Instruction::BLT(_, _, imm) ==> (s32(imm) < 0 <==> code
            >= 0x8000_0000),
        decode_branch(code) matches Instruction::BGE(_, _, imm) ==> (s32(imm) < 0 <==> code
            >= 0x8000_0000),
        decode_branch(code) matches Instruction::BLTU(_, _, imm) ==> (s32(imm) < 0 <==> code
            >= 0x8000_0000),
        decode_branch(code) matches Instruction::BGEU(_, _, imm) ==> (s32(imm) < 0 <==> code
            >= 0x8000_0000),
{
    lemma_signed_field_bits(code);
    lemma2_to64();
    lemma_small_mod(imm12_of(code) as nat, pow2(12));
    lemma_small_mod(branch_field(code) as nat, pow2(12));
    lemma_small_mod(store_field(code) as nat, pow2(12));
    lemma_wrap32_small(sign_ext_val(branch_field(code), 12));
}

/// The sign bit of every reassembled 12-bit immediate field is the
/// instruction word's bit 31.
proof fn lemma_signed_field_bits(code: u32)
    by (bit_vector)
    ensures
        imm12_of(code) < 0x1000,
        store_field(code) < 0x1000,
        branch_field(code) < 0x1000,
        (imm12_of(code) >= 0x800 <==> code >= 0x8000_0000),
        (store_field(code) >= 0x800 <==> code >= 0x8000_0000),
        (branch_field(code) >= 0x800 <==> code >= 0x8000_0000),
{
}

} // verus!
