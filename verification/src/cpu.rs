//! The execution core: a 32-entry register file with a hard-wired zero
//! register, a program counter, a cycle counter, breakpoints, and the
//! fetch/decode/execute loop with a PC-indexed decoded-instruction
//! cache.
//!
//! The behaviour of every instruction is given by the relation
//! [`exec_rel`]; `execute_instruction` is proved to realise it, and to
//! touch nothing when it reports a fault.

use vstd::prelude::*;
use vstd::wrapping::{u32_specs, u64_specs};
use crate::instruction::{Instruction, WrappedInstruction, wf_instr, decode_wrapped};
use crate::memory::addressspace::{
    Address, AddressSpace, same_mem, unchanged_mem, wrote_byte, wrote_half, wrote_word,
    INTERRUPT_VECTOR,
};
use crate::util::{
    s32, wrap32, sign_ext_val, sign_extend, lemma_u32_as_i32, lemma_i32_as_u32,
    lemma_u32_i32_roundtrip, lemma_wrap32_of_value, lemma_wrap32_small, lemma_mask5,
};

verus! {

broadcast use lemma_u32_as_i32, lemma_i32_as_u32, lemma_u32_i32_roundtrip, lemma_mask5;

/// Why the core stopped: a graceful halt (`EBREAK`) or a breakpoint
/// match.
#[derive(Clone, Copy, PartialEq, Eq, Structural, Debug)]
pub enum CpuEvent {
    Halted,
    Breakpoint,
}

/// Why an instruction could not be executed: it decoded to `INVALID`,
/// or it touched an address no device accepts.
#[derive(Clone, Copy, PartialEq, Eq, Structural, Debug)]
pub enum ExecFault {
    InvalidInstruction,
    UnmappedAccess,
}

/// The abstract state of the core.
pub struct CpuView {
    pub regs: Seq<u32>,
    pub pc: u32,
    pub running: bool,
    pub cycles: u64,
    pub saved_pc: u32,
    pub breakpoints: Set<Address>,
}

pub struct Cpu {
    registers: Vec<u32>,
    pc: u32,
    running: bool,
    cycle_counter: u64,
    saved_pc: u32,
    breakpoints: Vec<Address>,
}

impl View for Cpu {
    type V = CpuView;

    closed spec fn view(&self) -> CpuView {
        CpuView {
            regs: self.registers@,
            pc: self.pc,
            running: self.running,
            cycles: self.cycle_counter,
            saved_pc: self.saved_pc,
            breakpoints: self.breakpoints@.to_set(),
        }
    }
}

impl Cpu {
    /// The register file holds 32 words and register zero reads as
    /// zero.
    pub open spec fn wf(&self) -> bool {
        self@.regs.len() == 32 && self@.regs[0] == 0
    }
}

/// The register file after writing `val` to register `rd`: a write to
/// register zero is discarded.
pub open spec fn upd_reg(regs: Seq<u32>, rd: usize, val: u32) -> Seq<u32> {
    if rd == 0 {
        regs
    } else {
        regs.update(rd as int, val)
    }
}

/// The core after only a register write.
pub open spec fn set_reg_only(c: CpuView, rd: usize, val: u32) -> CpuView {
    CpuView { regs: upd_reg(c.regs, rd, val), ..c }
}

/// The wrapping address of a load or store: base register plus
/// sign-extended offset.
pub open spec fn calc_addr(c: CpuView, base_reg: usize, offset: i32) -> Address {
    u32_specs::wrapping_add_signed(c.regs[base_reg as int], offset)
}

/// Where a taken branch or jump lands: the immediate counts halfwords
/// and is applied to the PC of the branch itself; the instruction size
/// is subtracted so that the unconditional post-instruction advance
/// lands on the intended target.
pub open spec fn branch_target(pc: u32, imm: u32, size: u32) -> u32 {
    u32_specs::wrapping_sub(u32_specs::wrapping_add(pc, u32_specs::wrapping_mul(imm, 2)), size)
}

/// Whether a branch instruction is taken on register values `a` and
/// `b`, following the standard orderings.
pub open spec fn branch_taken(i: Instruction, a: u32, b: u32) -> bool {
    match i {
        Instruction::BEQ(_, _, _) => a == b,
        Instruction::BNE(_, _, _) => a != b,
        Instruction::BLT(_, _, _) => s32(a) < s32(b),
        Instruction::BGE(_, _, _) => s32(a) >= s32(b),
        Instruction::BLTU(_, _, _) => a < b,
        Instruction::BGEU(_, _, _) => a >= b,
        _ => false,
    }
}

/// Instructions that compute their own next PC.
pub open spec fn is_control(i: Instruction) -> bool {
    match i {
        Instruction::JAL(_, _) => true,
        Instruction::JALR(_, _, _) => true,
        Instruction::BEQ(_, _, _) => true,
        Instruction::BNE(_, _, _) => true,
        Instruction::BLT(_, _, _) => true,
        Instruction::BGE(_, _, _) => true,
        Instruction::BLTU(_, _, _) => true,
        Instruction::BGEU(_, _, _) => true,
        Instruction::MRET => true,
        _ => false,
    }
}

/// Truncating (round-toward-zero) integer division.
pub open spec fn div_trunc(x: int, d: int) -> int
    recommends
        d != 0,
{
    if x == 0 {
        0
    } else if x > 0 && d > 0 {
        x / d
    } else if x < 0 && d < 0 {
        (x * -1) / (d * -1)
    } else if x < 0 {
        ((x * -1) / d) * -1
    } else {
        (x / (d * -1)) * -1
    }
}

/// Truncating integer remainder, with the sign of the dividend.
pub open spec fn rem_trunc(x: int, d: int) -> int
    recommends
        d != 0,
{
    if x == 0 {
        0
    } else if x > 0 && d > 0 {
        x % d
    } else if x < 0 && d < 0 {
        ((x * -1) % (d * -1)) * -1
    } else if x < 0 {
        ((x * -1) % d) * -1
    } else {
        x % (d * -1)
    }
}

/// `MULH`: the upper word of the signed 64-bit product.
pub open spec fn mulh_val(a: u32, b: u32) -> u32 {
    wrap32((s32(a) * s32(b)) / 0x1_0000_0000)
}

/// `MULHSU`: the upper word of the signed-times-unsigned product.
pub open spec fn mulhsu_val(a: u32, b: u32) -> u32 {
    wrap32((s32(a) * b) / 0x1_0000_0000)
}

/// `MULHU`: the upper word of the unsigned product.
pub open spec fn mulhu_val(a: u32, b: u32) -> u32 {
    wrap32((a * b) / 0x1_0000_0000)
}

/// `DIV`: signed division; division by zero yields all ones, and
/// `INT_MIN / -1` wraps back to `INT_MIN`.
pub open spec fn div_val(a: u32, b: u32) -> u32 {
    if b == 0 {
        0xFFFF_FFFFu32
    } else {
        wrap32(div_trunc(s32(a), s32(b)))
    }
}

/// `DIVU`: unsigned division; division by zero yields all ones.
pub open spec fn divu_val(a: u32, b: u32) -> u32 {
    if b == 0 {
        0xFFFF_FFFFu32
    } else {
        ((a as int) / (b as int)) as u32
    }
}

/// `REM`: signed remainder; a zero divisor leaves the dividend.
pub open spec fn rem_val(a: u32, b: u32) -> u32 {
    if b == 0 {
        a
    } else {
        wrap32(rem_trunc(s32(a), s32(b)))
    }
}

/// `REMU`: unsigned remainder; a zero divisor leaves the dividend.
pub open spec fn remu_val(a: u32, b: u32) -> u32 {
    if b == 0 {
        a
    } else {
        ((a as int) % (b as int)) as u32
    }
}

/// Whether executing `i` in state `(c, m)` faults: the instruction is
/// `INVALID`, or an address it touches is not mapped for that access.
pub open spec fn exec_fault(i: Instruction, c: CpuView, m: AddressSpace) -> bool {
    match i {
        Instruction::INVALID => true,
        Instruction::LB(_, rs1, imm) => !m.readable(calc_addr(c, rs1, imm), 1),
        Instruction::LBU(_, rs1, imm) => !m.readable(calc_addr(c, rs1, imm), 1),
        Instruction::LH(_, rs1, imm) => !m.readable(calc_addr(c, rs1, imm), 2),
        Instruction::LHU(_, rs1, imm) => !m.readable(calc_addr(c, rs1, imm), 2),
        Instruction::LW(_, rs1, imm) => !m.readable(calc_addr(c, rs1, imm), 4),
        Instruction::SB(rs1, _, imm) => !m.writable(calc_addr(c, rs1, imm), 1),
        Instruction::SH(rs1, _, imm) => !m.writable(calc_addr(c, rs1, imm), 2),
        Instruction::SW(rs1, _, imm) => !m.writable(calc_addr(c, rs1, imm), 4),
        Instruction::LRW(_, rs1, _) => !m.readable(c.regs[rs1 as int], 4),
        Instruction::SCW(_, rs1, _) => !m.writable(c.regs[rs1 as int], 4),
        Instruction::AMOSWAPW(_, rs1, _) => !(m.readable(c.regs[rs1 as int], 4) && m.writable(
            c.regs[rs1 as int],
            4,
        )),
        Instruction::AMOADDW(_, rs1, _) => !(m.readable(c.regs[rs1 as int], 4) && m.writable(
            c.regs[rs1 as int],
            4,
        )),
        Instruction::AMOXORW(_, rs1, _) => !(m.readable(c.regs[rs1 as int], 4) && m.writable(
            c.regs[rs1 as int],
            4,
        )),
        Instruction::AMOANDW(_, rs1, _) => !(m.readable(c.regs[rs1 as int], 4) && m.writable(
            c.regs[rs1 as int],
            4,
        )),
        Instruction::AMOORW(_, rs1, _) => !(m.readable(c.regs[rs1 as int], 4) && m.writable(
            c.regs[rs1 as int],
            4,
        )),
        Instruction::AMOMINW(_, rs1, _) => !(m.readable(c.regs[rs1 as int], 4) && m.writable(
            c.regs[rs1 as int],
            4,
        )),
        Instruction::AMOMAXW(_, rs1, _) => !(m.readable(c.regs[rs1 as int], 4) && m.writable(
            c.regs[rs1 as int],
            4,
        )),
        Instruction::AMOMINUW(_, rs1, _) => !(m.readable(c.regs[rs1 as int], 4) && m.writable(
            c.regs[rs1 as int],
            4,
        )),
        Instruction::AMOMAXUW(_, rs1, _) => !(m.readable(c.regs[rs1 as int], 4) && m.writable(
            c.regs[rs1 as int],
            4,
        )),
        _ => false,
    }
}

/// How one executed instruction relates the machine state before to
/// the state after.  The PC advance by the instruction size and the
/// cycle count are applied afterwards by the caller (`run`, `step`).
pub open spec fn exec_rel(
    i: Instruction,
    size: u32,
    c0: CpuView,
    m0: AddressSpace,
    c1: CpuView,
    m1: AddressSpace,
) -> bool {
    match i {
        Instruction::LUI(rd, imm) => c1 == set_reg_only(c0, rd, imm << 12) && unchanged_mem(m0, m1),
        Instruction::AUIPC(rd, imm) => c1 == set_reg_only(
            c0,
            rd,
            u32_specs::wrapping_add(c0.pc, imm << 12),
        ) && unchanged_mem(m0, m1),
        Instruction::JAL(rd, imm) => c1 == (CpuView {
            pc: branch_target(c0.pc, imm, size),
            regs: upd_reg(c0.regs, rd, u32_specs::wrapping_add(c0.pc, size)),
            ..c0
        }) && unchanged_mem(m0, m1),
        Instruction::JALR(rd, rs1, imm) => c1 == (CpuView {
            pc: u32_specs::wrapping_sub(
                u32_specs::wrapping_add_signed(c0.regs[rs1 as int], imm) & !1u32,
                size,
            ),
            regs: upd_reg(c0.regs, rd, u32_specs::wrapping_add(c0.pc, size)),
            ..c0
        }) && unchanged_mem(m0, m1),
        Instruction::BEQ(rs1, rs2, imm) => branch_rel(i, rs1, rs2, imm, size, c0, m0, c1, m1),
        Instruction::BNE(rs1, rs2, imm) => branch_rel(i, rs1, rs2, imm, size, c0, m0, c1, m1),
        Instruction::BLT(rs1, rs2, imm) => branch_rel(i, rs1, rs2, imm, size, c0, m0, c1, m1),
        Instruction::BGE(rs1, rs2, imm) => branch_rel(i, rs1, rs2, imm, size, c0, m0, c1, m1),
        Instruction::BLTU(rs1, rs2, imm) => branch_rel(i, rs1, rs2, imm, size, c0, m0, c1, m1),
        Instruction::BGEU(rs1, rs2, imm) => branch_rel(i, rs1, rs2, imm, size, c0, m0, c1, m1),
        Instruction::LB(rd, rs1, imm) => c1 == set_reg_only(
            c0,
            rd,
            wrap32(sign_ext_val(m0.byte_at(calc_addr(c0, rs1, imm)) as u32, 8)),
        ) && unchanged_mem(m0, m1),
        Instruction::LH(rd, rs1, imm) => c1 == set_reg_only(
            c0,
            rd,
            wrap32(sign_ext_val(m0.half_at(calc_addr(c0, rs1, imm)) as u32, 16)),
        ) && unchanged_mem(m0, m1),
        Instruction::LW(rd, rs1, imm) => c1 == set_reg_only(
            c0,
            rd,
            m0.word_at(calc_addr(c0, rs1, imm)),
        ) && unchanged_mem(m0, m1),
        Instruction::LBU(rd, rs1, imm) => c1 == set_reg_only(
            c0,
            rd,
            m0.byte_at(calc_addr(c0, rs1, imm)) as u32,
        ) && unchanged_mem(m0, m1),
        Instruction::LHU(rd, rs1, imm) => c1 == set_reg_only(
            c0,
            rd,
            m0.half_at(calc_addr(c0, rs1, imm)) as u32,
        ) && unchanged_mem(m0, m1),
        Instruction::SB(rs1, rs2, imm) => c1 == c0 && wrote_byte(
            m0,
            m1,
            calc_addr(c0, rs1, imm),
            (c0.regs[rs2 as int] & 0xff) as u8,
        ),
        Instruction::SH(rs1, rs2, imm) => c1 == c0 && wrote_half(
            m0,
            m1,
            calc_addr(c0, rs1, imm),
            (c0.regs[rs2 as int] & 0xffff) as u16,
        ),
        Instruction::SW(rs1, rs2, imm) => c1 == c0 && wrote_word(
            m0,
            m1,
            calc_addr(c0, rs1, imm),
            c0.regs[rs2 as int],
        ),
        Instruction::ADDI(rd, rs1, imm) => c1 == set_reg_only(
            c0,
            rd,
            u32_specs::wrapping_add(c0.regs[rs1 as int], imm),
        ) && unchanged_mem(m0, m1),
        Instruction::SLTI(rd, rs1, imm) => c1 == set_reg_only(
            c0,
            rd,
            if s32(c0.regs[rs1 as int]) < s32(imm) {
                1u32
            } else {
                0u32
            },
        ) && unchanged_mem(m0, m1),
        Instruction::SLTIU(rd, rs1, imm) => c1 == set_reg_only(
            c0,
            rd,
            if c0.regs[rs1 as int] < imm {
                1u32
            } else {
                0u32
            },
        ) && unchanged_mem(m0, m1),
        Instruction::XORI(rd, rs1, imm) => c1 == set_reg_only(c0, rd, c0.regs[rs1 as int] ^ imm)
            && unchanged_mem(m0, m1),
        Instruction::ORI(rd, rs1, imm) => c1 == set_reg_only(c0, rd, c0.regs[rs1 as int] | imm)
            && unchanged_mem(m0, m1),
        Instruction::ANDI(rd, rs1, imm) => c1 == set_reg_only(c0, rd, c0.regs[rs1 as int] & imm)
            && unchanged_mem(m0, m1),
        Instruction::SLLI(rd, rs1, imm) => c1 == set_reg_only(c0, rd, c0.regs[rs1 as int] << imm)
            && unchanged_mem(m0, m1),
        Instruction::SRLI(rd, rs1, imm) => c1 == set_reg_only(c0, rd, c0.regs[rs1 as int] >> imm)
            && unchanged_mem(m0, m1),
        Instruction::SRAI(rd, rs1, imm) => c1 == set_reg_only(
            c0,
            rd,
            ((c0.regs[rs1 as int] as i32) >> imm) as u32,
        ) && unchanged_mem(m0, m1),
        Instruction::ADD(rd, rs1, rs2) => c1 == set_reg_only(
            c0,
            rd,
            u32_specs::wrapping_add(c0.regs[rs1 as int], c0.regs[rs2 as int]),
        ) && unchanged_mem(m0, m1),
        Instruction::SUB(rd, rs1, rs2) => c1 == set_reg_only(
            c0,
            rd,
            u32_specs::wrapping_sub(c0.regs[rs1 as int], c0.regs[rs2 as int]),
        ) && unchanged_mem(m0, m1),
        Instruction::SLL(rd, rs1, rs2) => c1 == set_reg_only(
            c0,
            rd,
            c0.regs[rs1 as int] << (c0.regs[rs2 as int] & 0x1f),
        ) && unchanged_mem(m0, m1),
        Instruction::SLT(rd, rs1, rs2) => c1 == set_reg_only(
            c0,
            rd,
            if s32(c0.regs[rs1 as int]) < s32(c0.regs[rs2 as int]) {
                1u32
            } else {
                0u32
            },
        ) && unchanged_mem(m0, m1),
        Instruction::SLTU(rd, rs1, rs2) => c1 == set_reg_only(
            c0,
            rd,
            if c0.regs[rs1 as int] < c0.regs[rs2 as int] {
                1u32
            } else {
                0u32
            },
        ) && unchanged_mem(m0, m1),
        Instruction::XOR(rd, rs1, rs2) => c1 == set_reg_only(
            c0,
            rd,
            c0.regs[rs1 as int] ^ c0.regs[rs2 as int],
        ) && unchanged_mem(m0, m1),
        Instruction::SRL(rd, rs1, rs2) => c1 == set_reg_only(
            c0,
            rd,
            c0.regs[rs1 as int] >> (c0.regs[rs2 as int] & 0x1f),
        ) && unchanged_mem(m0, m1),
        Instruction::SRA(rd, rs1, rs2) => c1 == set_reg_only(
            c0,
            rd,
            ((c0.regs[rs1 as int] as i32) >> (c0.regs[rs2 as int] & 0x1f)) as u32,
        ) && unchanged_mem(m0, m1),
        Instruction::OR(rd, rs1, rs2) => c1 == set_reg_only(
            c0,
            rd,
            c0.regs[rs1 as int] | c0.regs[rs2 as int],
        ) && unchanged_mem(m0, m1),
        Instruction::AND(rd, rs1, rs2) => c1 == set_reg_only(
            c0,
            rd,
            c0.regs[rs1 as int] & c0.regs[rs2 as int],
        ) && unchanged_mem(m0, m1),
        Instruction::EBREAK => c1 == (CpuView { running: false, ..c0 }) && unchanged_mem(m0, m1),
        Instruction::MUL(rd, rs1, rs2) => c1 == set_reg_only(
            c0,
            rd,
            u32_specs::wrapping_mul(c0.regs[rs1 as int], c0.regs[rs2 as int]),
        ) && unchanged_mem(m0, m1),
        Instruction::MULH(rd, rs1, rs2) => c1 == set_reg_only(
            c0,
            rd,
            mulh_val(c0.regs[rs1 as int], c0.regs[rs2 as int]),
        ) && unchanged_mem(m0, m1),
        Instruction::MULHSU(rd, rs1, rs2) => c1 == set_reg_only(
            c0,
            rd,
            mulhsu_val(c0.regs[rs1 as int], c0.regs[rs2 as int]),
        ) && unchanged_mem(m0, m1),
        Instruction::MULHU(rd, rs1, rs2) => c1 == set_reg_only(
            c0,
            rd,
            mulhu_val(c0.regs[rs1 as int], c0.regs[rs2 as int]),
        ) && unchanged_mem(m0, m1),
        Instruction::DIV(rd, rs1, rs2) => c1 == set_reg_only(
            c0,
            rd,
            div_val(c0.regs[rs1 as int], c0.regs[rs2 as int]),
        ) && unchanged_mem(m0, m1),
        Instruction::DIVU(rd, rs1, rs2) => c1 == set_reg_only(
            c0,
            rd,
            divu_val(c0.regs[rs1 as int], c0.regs[rs2 as int]),
        ) && unchanged_mem(m0, m1),
        Instruction::REM(rd, rs1, rs2) => c1 == set_reg_only(
            c0,
            rd,
            rem_val(c0.regs[rs1 as int], c0.regs[rs2 as int]),
        ) && unchanged_mem(m0, m1),
        Instruction::REMU(rd, rs1, rs2) => c1 == set_reg_only(
            c0,
            rd,
            remu_val(c0.regs[rs1 as int], c0.regs[rs2 as int]),
        ) && unchanged_mem(m0, m1),
        Instruction::MRET => c1 == (CpuView {
            pc: u32_specs::wrapping_sub(c0.saved_pc, size),
            ..c0
        }) && unchanged_mem(m0, m1),
        Instruction::LRW(rd, rs1, _) => c1 == set_reg_only(
            c0,
            rd,
            m0.word_at(c0.regs[rs1 as int]),
        ) && unchanged_mem(m0, m1),
        Instruction::SCW(rd, rs1, rs2) => c1 == set_reg_only(c0, rd, 0) && wrote_word(
            m0,
            m1,
            c0.regs[rs1 as int],
            c0.regs[rs2 as int],
        ),
        Instruction::AMOSWAPW(rd, rs1, rs2) => amo_rel(
            c0,
            m0,
            c1,
            m1,
            rd,
            rs1,
            c0.regs[rs2 as int],
        ),
        Instruction::AMOADDW(rd, rs1, rs2) => amo_rel(
            c0,
            m0,
            c1,
            m1,
            rd,
            rs1,
            u32_specs::wrapping_add(m0.word_at(c0.regs[rs1 as int]), c0.regs[rs2 as int]),
        ),
        Instruction::AMOANDW(rd, rs1, rs2) => amo_rel(
            c0,
            m0,
            c1,
            m1,
            rd,
            rs1,
            m0.word_at(c0.regs[rs1 as int]) & c0.regs[rs2 as int],
        ),
        Instruction::AMOORW(rd, rs1, rs2) => amo_rel(
            c0,
            m0,
            c1,
            m1,
            rd,
            rs1,
            m0.word_at(c0.regs[rs1 as int]) | c0.regs[rs2 as int],
        ),
        Instruction::AMOXORW(rd, rs1, rs2) => amo_rel(
            c0,
            m0,
            c1,
            m1,
            rd,
            rs1,
            m0.word_at(c0.regs[rs1 as int]) ^ c0.regs[rs2 as int],
        ),
        Instruction::AMOMAXW(rd, rs1, rs2) => amo_rel(
            c0,
            m0,
            c1,
            m1,
            rd,
            rs1,
            if s32(m0.word_at(c0.regs[rs1 as int])) >= s32(c0.regs[rs2 as int]) {
                m0.word_at(c0.regs[rs1 as int])
            } else {
                c0.regs[rs2 as int]
            },
        ),
        Instruction::AMOMAXUW(rd, rs1, rs2) => amo_rel(
            c0,
            m0,
            c1,
            m1,
            rd,
            rs1,
            if m0.word_at(c0.regs[rs1 as int]) >= c0.regs[rs2 as int] {
                m0.word_at(c0.regs[rs1 as int])
            } else {
                c0.regs[rs2 as int]
            },
        ),
        Instruction::AMOMINW(rd, rs1, rs2) => amo_rel(
            c0,
            m0,
            c1,
            m1,
            rd,
            rs1,
            if s32(m0.word_at(c0.regs[rs1 as int])) <= s32(c0.regs[rs2 as int]) {
                m0.word_at(c0.regs[rs1 as int])
            } else {
                c0.regs[rs2 as int]
            },
        ),
        Instruction::AMOMINUW(rd, rs1, rs2) => amo_rel(
            c0,
            m0,
            c1,
            m1,
            rd,
            rs1,
            if m0.word_at(c0.regs[rs1 as int]) <= c0.regs[rs2 as int] {
                m0.word_at(c0.regs[rs1 as int])
            } else {
                c0.regs[rs2 as int]
            },
        ),
        Instruction::CSRRW => c1 == c0 && unchanged_mem(m0, m1),
        Instruction::CSRRS => c1 == c0 && unchanged_mem(m0, m1),
        Instruction::CSRRC => c1 == c0 && unchanged_mem(m0, m1),
        Instruction::CSRRWI => c1 == c0 && unchanged_mem(m0, m1),
        Instruction::CSRRSI => c1 == c0 && unchanged_mem(m0, m1),
        Instruction::CSRRCI => c1 == c0 && unchanged_mem(m0, m1),
        Instruction::INVALID => false,
    }
}

/// A conditional branch: the PC moves to the branch target exactly
/// when the condition holds of the two source registers.
pub open spec fn branch_rel(
    i: Instruction,
    rs1: usize,
    rs2: usize,
    imm: u32,
    size: u32,
    c0: CpuView,
    m0: AddressSpace,
    c1: CpuView,
    m1: AddressSpace,
) -> bool {
    c1 == (if branch_taken(i, c0.regs[rs1 as int], c0.regs[rs2 as int]) {
        CpuView { pc: branch_target(c0.pc, imm, size), ..c0 }
    } else {
        c0
    }) && unchanged_mem(m0, m1)
}

/// A read-modify-write atomic: the pre-operation memory word lands in
/// `rd` and `result` is stored back at the address in `rs1`.
pub open spec fn amo_rel(
    c0: CpuView,
    m0: AddressSpace,
    c1: CpuView,
    m1: AddressSpace,
    rd: usize,
    rs1: usize,
    result: u32,
) -> bool {
    let addr = c0.regs[rs1 as int];
    c1 == set_reg_only(c0, rd, m0.word_at(addr)) && wrote_word(m0, m1, addr, result)
}

/// One whole `step` neither faults at fetch nor at execution.
pub open spec fn can_step(c: CpuView, m: AddressSpace) -> bool {
    &&& m.readable(c.pc, 4)
    &&& !exec_fault(decode_wrapped(m.word_at(c.pc)).instruction, c, m)
}

/// One whole `step`: the word at the PC is decoded and executed, then
/// the PC advances by the instruction size and the cycle counter by
/// one.
pub open spec fn step_rel(c0: CpuView, m0: AddressSpace, c1: CpuView, m1: AddressSpace) -> bool {
    let wi = decode_wrapped(m0.word_at(c0.pc));
    exists|cmid: CpuView|
        {
            &&& #[trigger] exec_rel(wi.instruction, wi.size, c0, m0, cmid, m1)
            &&& c1 == (CpuView {
                pc: u32_specs::wrapping_add(cmid.pc, wi.size),
                cycles: u64_specs::wrapping_add(cmid.cycles, 1),
                ..cmid
            })
        }
}

/// What `step` reports of the state it leaves behind.
pub open spec fn step_event(c: CpuView) -> Option<CpuEvent> {
    if !c.running {
        Some(CpuEvent::Halted)
    } else if c.breakpoints.contains(c.pc) {
        Some(CpuEvent::Breakpoint)
    } else {
        None
    }
}

/// Number of byte addresses covered by the decoded-instruction cache.
pub const INSTRUCTION_CACHE_SIZE: usize = 1024 * 1024;

/// The decoded-instruction cache as the run loop first fills it: every
/// line invalid.
pub open spec fn init_cache() -> Seq<WrappedInstruction> {
    Seq::new(
        INSTRUCTION_CACHE_SIZE as nat,
        |i: int| (WrappedInstruction { instruction: Instruction::INVALID, size: 0 }),
    )
}

/// What the run loop executes at the current PC: the cached decode when
/// the line is valid, a fresh decode of the current memory word
/// otherwise.  A stale line shows here as itself: the cache is never
/// expelled, so code modified after its first execution keeps its old
/// decode.
pub open spec fn cache_fetch(
    cache: Seq<WrappedInstruction>,
    c: CpuView,
    m: AddressSpace,
) -> WrappedInstruction {
    if c.pc < INSTRUCTION_CACHE_SIZE && cache[c.pc as int].instruction != Instruction::INVALID {
        cache[c.pc as int]
    } else {
        decode_wrapped(m.word_at(c.pc))
    }
}

/// The cache after one fetch: an invalid line within the window is
/// filled with the fresh decode; nothing is ever expelled.
pub open spec fn cache_after_fetch(
    cache: Seq<WrappedInstruction>,
    c: CpuView,
    m: AddressSpace,
) -> Seq<WrappedInstruction> {
    if c.pc < INSTRUCTION_CACHE_SIZE && cache[c.pc as int].instruction == Instruction::INVALID {
        cache.update(c.pc as int, decode_wrapped(m.word_at(c.pc)))
    } else {
        cache
    }
}

/// One interrupt poll: with no flag asserted nothing changes; else the
/// lowest flag bit clears itself, the PC is stashed in the saved-PC
/// register and control moves to the interrupt vector.
pub open spec fn poll_rel(c0: CpuView, m0: AddressSpace, c1: CpuView, m1: AddressSpace) -> bool {
    &&& same_mem(m0, m1)
    &&& if m0.interrupt_flags == 0 {
        c1 == c0 && m1.interrupt_flags == m0.interrupt_flags
    } else {
        c1 == (CpuView { pc: INTERRUPT_VECTOR, saved_pc: c0.pc, ..c0 }) && m1.interrupt_flags == (
        m0.interrupt_flags & ((m0.interrupt_flags - 1) as u32))
    }
}

/// One round of the run loop: an interrupt poll, a (possibly cached)
/// fetch at the resulting PC, one executed instruction, then the PC
/// advance by the instruction size and one counted cycle.
pub open spec fn run_step(
    c0: CpuView,
    m0: AddressSpace,
    cache0: Seq<WrappedInstruction>,
    c1: CpuView,
    m1: AddressSpace,
    cache1: Seq<WrappedInstruction>,
) -> bool {
    exists|cp: CpuView, mp: AddressSpace, cx: CpuView|
        {
            &&& #[trigger] poll_rel(c0, m0, cp, mp)
            &&& mp.readable(cp.pc, 4)
            &&& cache1 == cache_after_fetch(cache0, cp, mp)
            &&& #[trigger] exec_rel(
                cache_fetch(cache0, cp, mp).instruction,
                cache_fetch(cache0, cp, mp).size,
                cp,
                mp,
                cx,
                m1,
            )
            &&& cx.cycles < u64::MAX
            &&& c1 == (CpuView {
                pc: u32_specs::wrapping_add(cx.pc, cache_fetch(cache0, cp, mp).size),
                cycles: (cx.cycles + 1) as u64,
                ..cx
            })
        }
}

/// `n` rounds of the run loop lead from the first state to the second.
pub open spec fn runs_to(
    c0: CpuView,
    m0: AddressSpace,
    cache0: Seq<WrappedInstruction>,
    c1: CpuView,
    m1: AddressSpace,
    cache1: Seq<WrappedInstruction>,
    n: nat,
) -> bool
    decreases n,
{
    if n == 0 {
        c1 == c0 && m1 == m0 && cache1 == cache0
    } else {
        exists|c: CpuView, m: AddressSpace, cache: Seq<WrappedInstruction>|
            {
                &&& runs_to(c0, m0, cache0, c, m, cache, (n - 1) as nat)
                &&& #[trigger] run_step(c, m, cache, c1, m1, cache1)
            }
    }
}

/// A state on which the next round cannot complete: after the
/// interrupt poll, the fetch itself is unmapped or the fetched
/// (possibly cached) instruction faults.
pub open spec fn run_stuck(c: CpuView, m: AddressSpace, cache: Seq<WrappedInstruction>) -> bool {
    !m.readable(c.pc, 4) || exec_fault(cache_fetch(cache, c, m).instruction, c, m)
}

/// A trace of `n` rounds extends by one more round.
proof fn lemma_runs_to_step(
    s0: CpuView,
    mem0: AddressSpace,
    cc0: Seq<WrappedInstruction>,
    c: CpuView,
    m: AddressSpace,
    cache: Seq<WrappedInstruction>,
    cp: CpuView,
    mp: AddressSpace,
    cx: CpuView,
    c1: CpuView,
    m1: AddressSpace,
    cache1: Seq<WrappedInstruction>,
    n: nat,
)
    requires
        runs_to(s0, mem0, cc0, c, m, cache, n),
        poll_rel(c, m, cp, mp),
        mp.readable(cp.pc, 4),
        cache1 == cache_after_fetch(cache, cp, mp),
        exec_rel(
            cache_fetch(cache, cp, mp).instruction,
            cache_fetch(cache, cp, mp).size,
            cp,
            mp,
            cx,
            m1,
        ),
        cx.cycles < u64::MAX,
        c1 == (CpuView {
            pc: u32_specs::wrapping_add(cx.pc, cache_fetch(cache, cp, mp).size),
            cycles: (cx.cycles + 1) as u64,
            ..cx
        }),
    ensures
        runs_to(s0, mem0, cc0, c1, m1, cache1, n + 1),
{
    assert(run_step(c, m, cache, c1, m1, cache1));
    assert(runs_to(s0, mem0, cc0, c, m, cache, ((n + 1) - 1) as nat));
}

/// A pushed element is a new member; every other membership is kept.
proof fn lemma_push_contains(s: Seq<Address>, b: Address, x: Address)
    ensures
        s.push(b).contains(x) == (s.contains(x) || x == b),
{
    assert(s.push(b)[s.len() as int] == b);
    if s.contains(x) {
        let k = choose|k: int| 0 <= k < s.len() && s[k] == x;
        assert(s.push(b)[k] == x);
    }
    if s.push(b).contains(x) && x != b {
        let k = choose|k: int| 0 <= k < s.push(b).len() && s.push(b)[k] == x;
        assert(s[k] == x);
    }
}

impl Cpu {
    pub fn new() -> (r: Cpu)
        ensures
            r.wf(),
            r@.regs.len() == 32,
            forall|i: int| 0 <= i < 32 ==> r@.regs[i] == 0,
            r@.pc == 0,
            r@.running,
            r@.cycles == 0,
            r@.saved_pc == 0,
            r@.breakpoints == Set::<Address>::empty(),
    {
        let r = Cpu {
            registers: vec![0u32; 32],
            pc: 0,
            running: true,
            cycle_counter: 0,
            saved_pc: 0,
            breakpoints: Vec::new(),
        };
        proof {
            assert(r@.breakpoints =~= Set::<Address>::empty());
        }
        r
    }

    /// Return to the state of a fresh core.
    pub fn reset(&mut self)
        ensures
            final(self).wf(),
            final(self)@.regs.len() == 32,
            forall|i: int| 0 <= i < 32 ==> final(self)@.regs[i] == 0,
            final(self)@.pc == 0,
            final(self)@.running,
            final(self)@.cycles == 0,
            final(self)@.saved_pc == 0,
            final(self)@.breakpoints == Set::<Address>::empty(),
    {
        *self = Cpu::new();
    }

    pub fn get_register(&self, num: usize) -> (r: u32)
        requires
            self.wf(),
            num < 32,
        ensures
            r == self@.regs[num as int],
    {
        self.registers[num]
    }

    /// Write a register; a write to register zero is silently
    /// discarded.
    pub fn set_register(&mut self, num: usize, value: u32)
        requires
            old(self).wf(),
            num < 32,
        ensures
            final(self).wf(),
            final(self)@ == (CpuView { regs: upd_reg(old(self)@.regs, num, value), ..old(self)@ }),
    {
        if num != 0 {
            self.registers[num] = value;
        }
    }

    pub fn get_pc(&self) -> (r: u32)
        ensures
            r == self@.pc,
    {
        self.pc
    }

    pub fn set_pc(&mut self, value: u32)
        ensures
            final(self)@ == (CpuView { pc: value, ..old(self)@ }),
    {
        self.pc = value;
    }

    pub fn get_cycle_counter(&self) -> (r: u64)
        ensures
            r == self@.cycles,
    {
        self.cycle_counter
    }

    /// Redirect control to an interrupt vector: the current PC is
    /// stashed in the saved-PC register, through which `MRET` returns.
    pub fn interrupt(&mut self, vector: Address)
        ensures
            final(self)@ == (CpuView { pc: vector, saved_pc: old(self)@.pc, ..old(self)@ }),
    {
        self.saved_pc = self.pc;
        self.pc = vector;
    }

    pub fn add_breakpoint(&mut self, address: Address)
        ensures
            final(self)@ == (CpuView {
                breakpoints: old(self)@.breakpoints.insert(address),
                ..old(self)@
            }),
    {
        if !self.is_breakpoint(address) {
            self.breakpoints.push(address);
            proof {
                assert forall|x: Address|
                    #[trigger] self.breakpoints@.contains(x) == (old(
                        self,
                    ).breakpoints@.contains(x) || x == address) by {
                    lemma_push_contains(old(self).breakpoints@, address, x);
                }
                assert(self@.breakpoints =~= old(self)@.breakpoints.insert(address));
            }
        } else {
            proof {
                assert(self@.breakpoints =~= old(self)@.breakpoints.insert(address));
            }
        }
    }

    pub fn remove_breakpoint(&mut self, address: Address)
        ensures
            final(self)@ == (CpuView {
                breakpoints: old(self)@.breakpoints.remove(address),
                ..old(self)@
            }),
    {
        let mut kept: Vec<Address> = Vec::new();
        let n = self.breakpoints.len();
        let mut i: usize = 0;
        while i < n
            invariant
                i <= n,
                n == self.breakpoints@.len(),
                forall|x: Address| #[trigger]
                    kept@.contains(x) == (self.breakpoints@.take(i as int).contains(x) && x
                        != address),
            decreases n - i,
        {
            let b = self.breakpoints[i];
            proof {
                assert(self.breakpoints@.take(i as int + 1) =~= self.breakpoints@.take(
                    i as int,
                ).push(b));
            }
            let ghost kept_before = kept@;
            if b != address {
                kept.push(b);
            }
            proof {
                let pre = self.breakpoints@.take(i as int);
                let post = self.breakpoints@.take(i as int + 1);
                assert forall|x: Address|
                    #[trigger] kept@.contains(x) == (post.contains(x) && x != address) by {
                    lemma_push_contains(pre, b, x);
                    if b != address {
                        lemma_push_contains(kept_before, b, x);
                    }
                }
            }
            i += 1;
        }
        proof {
            assert(self.breakpoints@.take(n as int) == self.breakpoints@);
        }
        self.breakpoints = kept;
        proof {
            assert(self@.breakpoints =~= old(self)@.breakpoints.remove(address));
        }
    }

    fn is_breakpoint(&self, address: Address) -> (r: bool)
        ensures
            r == self@.breakpoints.contains(address),
    {
        let n = self.breakpoints.len();
        let mut i: usize = 0;
        while i < n
            invariant
                i <= n,
                n == self.breakpoints@.len(),
                forall|j: int| 0 <= j < i ==> self.breakpoints@[j] != address,
            decreases n - i,
        {
            if self.breakpoints[i] == address {
                return true;
            }
            i += 1;
        }
        false
    }

    /// On a taken branch, move the PC to the branch target.
    fn set_pc_for_branch(&mut self, condition: bool, imm: u32, size: u32)
        ensures
            final(self)@ == (if condition {
                CpuView { pc: branch_target(old(self)@.pc, imm, size), ..old(self)@ }
            } else {
                old(self)@
            }),
    {
        if condition {
            self.pc = self.pc.wrapping_add(imm.wrapping_mul(2)).wrapping_sub(size);
        }
    }

    /// The wrapping address of a load or store.
    fn calculate_address(&self, base_reg: usize, offset: i32) -> (r: Address)
        requires
            self.wf(),
            base_reg < 32,
        ensures
            r == calc_addr(self@, base_reg, offset),
    {
        self.get_register(base_reg).wrapping_add_signed(offset)
    }
}

/// A value within one word-width of zero, wrapped into a word.
fn wrap_signed(x: i64) -> (r: u32)
    requires
        -0x1_0000_0000 < x < 0x1_0000_0000,
    ensures
        r == wrap32(x as int),
{
    proof {
        lemma_wrap32_small(x as int);
    }
    if x >= 0 {
        x as u32
    } else {
        (x + 0x1_0000_0000) as u32
    }
}

/// Sign extension of an `nbits`-wide field into an unsigned word.
fn sign_extend_word(x: u32, nbits: u32) -> (r: u32)
    requires
        1 <= nbits <= 32,
        x < 0x8000_0000,
    ensures
        r == wrap32(sign_ext_val(x, nbits)),
{
    let s = sign_extend(x as i32, nbits);
    let r = #[verifier::truncate] (s as u32);
    proof {
        lemma_wrap32_of_value(r);
    }
    r
}

fn mulh_exec(a: u32, b: u32) -> (r: u32)
    ensures
        r == mulh_val(a, b),
{
    let x = (#[verifier::truncate] (a as i32)) as i64;
    let y = (#[verifier::truncate] (b as i32)) as i64;
    proof {
        assert(-0x4000_0000_0000_0000 <= x * y <= 0x4000_0000_0000_0000) by (nonlinear_arith)
            requires
                -0x8000_0000 <= x <= 0x7FFF_FFFF,
                -0x8000_0000 <= y <= 0x7FFF_FFFF,
        ;
    }
    let p: i64 = x * y;
    let q = p.checked_div_euclid(0x1_0000_0000).unwrap();
    wrap_signed(q)
}

fn mulhsu_exec(a: u32, b: u32) -> (r: u32)
    ensures
        r == mulhsu_val(a, b),
{
    let x = (#[verifier::truncate] (a as i32)) as i64;
    let y = b as i64;
    proof {
        assert(-0x7FFF_FFFF_FFFF_FFFF <= x * y <= 0x7FFF_FFFF_FFFF_FFFF) by (nonlinear_arith)
            requires
                -0x8000_0000 <= x <= 0x7FFF_FFFF,
                0 <= y <= 0xFFFF_FFFF,
        ;
    }
    let p: i64 = x * y;
    let q = p.checked_div_euclid(0x1_0000_0000).unwrap();
    wrap_signed(q)
}

fn mulhu_exec(a: u32, b: u32) -> (r: u32)
    ensures
        r == mulhu_val(a, b),
{
    let x = a as u64;
    let y = b as u64;
    proof {
        assert(x * y <= 0xFFFF_FFFE_0000_0001) by (nonlinear_arith)
            requires
                x <= 0xFFFF_FFFF,
                y <= 0xFFFF_FFFF,
        ;
    }
    let p: u64 = x * y;
    let q: u64 = p / 0x1_0000_0000u64;
    proof {
        vstd::arithmetic::div_mod::lemma_fundamental_div_mod(p as int, 0x1_0000_0000);
        vstd::arithmetic::div_mod::lemma_mod_division_less_than_divisor(p as int, 0x1_0000_0000);
        vstd::arithmetic::div_mod::lemma_div_pos_is_pos(p as int, 0x1_0000_0000);
        lemma_wrap32_small(q as int);
    }
    q as u32
}

fn div_exec(a: u32, b: u32) -> (r: u32)
    ensures
        r == div_val(a, b),
{
    if b == 0 {
        return 0xFFFF_FFFF;
    }
    let x = (#[verifier::truncate] (a as i32)) as i64;
    let y = (#[verifier::truncate] (b as i32)) as i64;
    proof {
        lemma_div_trunc_bounds(x as int, y as int);
    }
    let q = x.checked_div(y).unwrap();
    wrap_signed(q)
}

fn rem_exec(a: u32, b: u32) -> (r: u32)
    ensures
        r == rem_val(a, b),
{
    if b == 0 {
        return a;
    }
    let x = (#[verifier::truncate] (a as i32)) as i64;
    let y = (#[verifier::truncate] (b as i32)) as i64;
    proof {
        lemma_rem_trunc_bounds(x as int, y as int);
    }
    let q = x.checked_rem(y).unwrap();
    wrap_signed(q)
}

/// The truncating quotient is no larger in magnitude than the
/// dividend.
proof fn lemma_div_trunc_bounds(x: int, d: int)
    requires
        -0x8000_0000 <= x <= 0x7FFF_FFFF,
        -0x8000_0000 <= d <= 0x7FFF_FFFF,
        d != 0,
    ensures
        -0x8000_0000 <= div_trunc(x, d) <= 0x8000_0000,
{
    let ax = if x < 0 {
        x * -1
    } else {
        x
    };
    let ad = if d < 0 {
        d * -1
    } else {
        d
    };
    if x != 0 {
        vstd::arithmetic::div_mod::lemma_div_pos_is_pos(ax, ad);
        vstd::arithmetic::div_mod::lemma_div_nonincreasing(ax, ad);
    }
}

/// The truncating remainder is smaller in magnitude than the divisor.
proof fn lemma_rem_trunc_bounds(x: int, d: int)
    requires
        -0x8000_0000 <= x <= 0x7FFF_FFFF,
        -0x8000_0000 <= d <= 0x7FFF_FFFF,
        d != 0,
    ensures
        -0x8000_0000 <= rem_trunc(x, d) <= 0x8000_0000,
{
    let ax = if x < 0 {
        x * -1
    } else {
        x
    };
    let ad = if d < 0 {
        d * -1
    } else {
        d
    };
    if x != 0 {
        vstd::arithmetic::div_mod::lemma_mod_division_less_than_divisor(ax, ad);
        vstd::arithmetic::div_mod::lemma_mod_bound(ax, ad);
    }
}

impl Cpu {
    /// Execute one decoded instruction against the register file and
    /// the address space.  On `Ok` the machine stepped as `exec_rel`
    /// describes; on `Err` nothing changed at all: the fault is
    /// reported before any register or memory write.
    #[verifier::rlimit(60)]
    pub fn execute_instruction(
        &mut self,
        instruction: &Instruction,
        size: u32,
        memory: &mut AddressSpace,
    ) -> (r: Result<(), ExecFault>)
        requires
            old(self).wf(),
            wf_instr(*instruction),
            old(memory).inv(),
        ensures
            final(self).wf(),
            final(memory).inv(),
            r is Ok ==> exec_rel(
                *instruction,
                size,
                old(self)@,
                *old(memory),
                final(self)@,
                *final(memory),
            ),
            r is Err ==> *final(self) == *old(self) && *final(memory) == *old(memory),
            r == (if exec_fault(*instruction, old(self)@, *old(memory)) {
                Result::<(), ExecFault>::Err(
                    if *instruction is INVALID {
                        ExecFault::InvalidInstruction
                    } else {
                        ExecFault::UnmappedAccess
                    },
                )
            } else {
                Result::<(), ExecFault>::Ok(())
            }),
    {
        match *instruction {
            Instruction::LUI(rd, imm) => {
                self.set_register(rd, imm << 12);
            },
            Instruction::AUIPC(rd, imm) => {
                let result = self.pc.wrapping_add(imm << 12);
                self.set_register(rd, result);
            },
            Instruction::JAL(rd, imm) => {
                let result = self.pc.wrapping_add(size);
                self.pc = self.pc.wrapping_add(imm.wrapping_mul(2)).wrapping_sub(size);
                self.set_register(rd, result);
            },
            Instruction::JALR(rd, rs1, imm) => {
                let new_pc = self.get_register(rs1).wrapping_add_signed(imm);
                let result = self.pc.wrapping_add(size);
                self.pc = (new_pc & !1u32).wrapping_sub(size);
                self.set_register(rd, result);
            },
            Instruction::BEQ(rs1, rs2, imm) => {
                let v1 = self.get_register(rs1);
                let v2 = self.get_register(rs2);
                self.set_pc_for_branch(v1 == v2, imm, size);
            },
            Instruction::BNE(rs1, rs2, imm) => {
                let v1 = self.get_register(rs1);
                let v2 = self.get_register(rs2);
                self.set_pc_for_branch(v1 != v2, imm, size);
            },
            Instruction::BLT(rs1, rs2, imm) => {
                let v1 = #[verifier::truncate] (self.get_register(rs1) as i32);
                let v2 = #[verifier::truncate] (self.get_register(rs2) as i32);
                self.set_pc_for_branch(v1 < v2, imm, size);
            },
            Instruction::BGE(rs1, rs2, imm) => {
                let v1 = #[verifier::truncate] (self.get_register(rs1) as i32);
                let v2 = #[verifier::truncate] (self.get_register(rs2) as i32);
                self.set_pc_for_branch(v1 >= v2, imm, size);
            },
            Instruction::BLTU(rs1, rs2, imm) => {
                let v1 = self.get_register(rs1);
                let v2 = self.get_register(rs2);
                self.set_pc_for_branch(v1 < v2, imm, size);
            },
            Instruction::BGEU(rs1, rs2, imm) => {
                let v1 = self.get_register(rs1);
                let v2 = self.get_register(rs2);
                self.set_pc_for_branch(v1 >= v2, imm, size);
            },
            Instruction::LB(rd, rs1, imm) => {
                let addr = self.calculate_address(rs1, imm);
                if !memory.is_readable(addr, 1) {
                    return Err(ExecFault::UnmappedAccess);
                }
                let byte = memory.read_byte(addr);
                self.set_register(rd, sign_extend_word(byte as u32, 8));
            },
            Instruction::LH(rd, rs1, imm) => {
                let addr = self.calculate_address(rs1, imm);
                if !memory.is_readable(addr, 2) {
                    return Err(ExecFault::UnmappedAccess);
                }
                let halfword = memory.read_halfword(addr);
                self.set_register(rd, sign_extend_word(halfword as u32, 16));
            },
            Instruction::LW(rd, rs1, imm) => {
                let addr = self.calculate_address(rs1, imm);
                if !memory.is_readable(addr, 4) {
                    return Err(ExecFault::UnmappedAccess);
                }
                let word = memory.read_word(addr);
                self.set_register(rd, word);
            },
            Instruction::LBU(rd, rs1, imm) => {
                let addr = self.calculate_address(rs1, imm);
                if !memory.is_readable(addr, 1) {
                    return Err(ExecFault::UnmappedAccess);
                }
                let byte = memory.read_byte(addr);
                self.set_register(rd, byte as u32);
            },
            Instruction::LHU(rd, rs1, imm) => {
                let addr = self.calculate_address(rs1, imm);
                if !memory.is_readable(addr, 2) {
                    return Err(ExecFault::UnmappedAccess);
                }
                let halfword = memory.read_halfword(addr);
                self.set_register(rd, halfword as u32);
            },
            Instruction::SB(rs1, rs2, imm) => {
                let addr = self.calculate_address(rs1, imm);
                if !memory.is_writable(addr, 1) {
                    return Err(ExecFault::UnmappedAccess);
                }
                memory.write_byte(addr, (self.get_register(rs2) & 0xff) as u8);
            },
            Instruction::SH(rs1, rs2, imm) => {
                let addr = self.calculate_address(rs1, imm);
                if !memory.is_writable(addr, 2) {
                    return Err(ExecFault::UnmappedAccess);
                }
                memory.write_halfword(addr, (self.get_register(rs2) & 0xffff) as u16);
            },
            Instruction::SW(rs1, rs2, imm) => {
                let addr = self.calculate_address(rs1, imm);
                if !memory.is_writable(addr, 4) {
                    return Err(ExecFault::UnmappedAccess);
                }
                memory.write_word(addr, self.get_register(rs2));
            },
            Instruction::ADDI(rd, rs1, imm) => {
                let result = self.get_register(rs1).wrapping_add(imm);
                self.set_register(rd, result);
            },
            Instruction::SLTI(rd, rs1, imm) => {
                let v1 = #[verifier::truncate] (self.get_register(rs1) as i32);
                let result: u32 = if v1 < (#[verifier::truncate] (imm as i32)) {
                    1
                } else {
                    0
                };
                self.set_register(rd, result);
            },
            Instruction::SLTIU(rd, rs1, imm) => {
                let v1 = self.get_register(rs1);
                let result: u32 = if v1 < imm {
                    1
                } else {
                    0
                };
                self.set_register(rd, result);
            },
            Instruction::XORI(rd, rs1, imm) => {
                let result = self.get_register(rs1) ^ imm;
                self.set_register(rd, result);
            },
            Instruction::ORI(rd, rs1, imm) => {
                let result = self.get_register(rs1) | imm;
                self.set_register(rd, result);
            },
            Instruction::ANDI(rd, rs1, imm) => {
                let result = self.get_register(rs1) & imm;
                self.set_register(rd, result);
            },
            Instruction::SLLI(rd, rs1, imm) => {
                let result = self.get_register(rs1) << imm;
                self.set_register(rd, result);
            },
            Instruction::SRLI(rd, rs1, imm) => {
                let result = self.get_register(rs1) >> imm;
                self.set_register(rd, result);
            },
            Instruction::SRAI(rd, rs1, imm) => {
                let v1 = #[verifier::truncate] (self.get_register(rs1) as i32);
                let result = #[verifier::truncate] ((v1 >> imm) as u32);
                self.set_register(rd, result);
            },
            Instruction::ADD(rd, rs1, rs2) => {
                let result = self.get_register(rs1).wrapping_add(self.get_register(rs2));
                self.set_register(rd, result);
            },
            Instruction::SUB(rd, rs1, rs2) => {
                let result = self.get_register(rs1).wrapping_sub(self.get_register(rs2));
                self.set_register(rd, result);
            },
            Instruction::SLL(rd, rs1, rs2) => {
                let result = self.get_register(rs1) << (self.get_register(rs2) & 0x1f);
                self.set_register(rd, result);
            },
            Instruction::SLT(rd, rs1, rs2) => {
                let v1 = #[verifier::truncate] (self.get_register(rs1) as i32);
                let v2 = #[verifier::truncate] (self.get_register(rs2) as i32);
                let result: u32 = if v1 < v2 {
                    1
                } else {
                    0
                };
                self.set_register(rd, result);
            },
            Instruction::SLTU(rd, rs1, rs2) => {
                let v1 = self.get_register(rs1);
                let v2 = self.get_register(rs2);
                let result: u32 = if v1 < v2 {
                    1
                } else {
                    0
                };
                self.set_register(rd, result);
            },
            Instruction::XOR(rd, rs1, rs2) => {
                let result = self.get_register(rs1) ^ self.get_register(rs2);
                self.set_register(rd, result);
            },
            Instruction::SRL(rd, rs1, rs2) => {
                let result = self.get_register(rs1) >> (self.get_register(rs2) & 0x1f);
                self.set_register(rd, result);
            },
            Instruction::SRA(rd, rs1, rs2) => {
                let v1 = #[verifier::truncate] (self.get_register(rs1) as i32);
                let shamt = self.get_register(rs2) & 0x1f;
                let result = #[verifier::truncate] ((v1 >> shamt) as u32);
                self.set_register(rd, result);
            },
            Instruction::OR(rd, rs1, rs2) => {
                let result = self.get_register(rs1) | self.get_register(rs2);
                self.set_register(rd, result);
            },
            Instruction::AND(rd, rs1, rs2) => {
                let result = self.get_register(rs1) & self.get_register(rs2);
                self.set_register(rd, result);
            },
            Instruction::MUL(rd, rs1, rs2) => {
                let result = self.get_register(rs1).wrapping_mul(self.get_register(rs2));
                self.set_register(rd, result);
            },
            Instruction::MULH(rd, rs1, rs2) => {
                let result = mulh_exec(self.get_register(rs1), self.get_register(rs2));
                self.set_register(rd, result);
            },
            Instruction::MULHSU(rd, rs1, rs2) => {
                let result = mulhsu_exec(self.get_register(rs1), self.get_register(rs2));
                self.set_register(rd, result);
            },
            Instruction::MULHU(rd, rs1, rs2) => {
                let result = mulhu_exec(self.get_register(rs1), self.get_register(rs2));
                self.set_register(rd, result);
            },
            Instruction::DIV(rd, rs1, rs2) => {
                let result = div_exec(self.get_register(rs1), self.get_register(rs2));
                self.set_register(rd, result);
            },
            Instruction::DIVU(rd, rs1, rs2) => {
                let v1 = self.get_register(rs1);
                let v2 = self.get_register(rs2);
                let result: u32 = if v2 == 0 {
                    0xFFFF_FFFF
                } else {
                    v1 / v2
                };
                self.set_register(rd, result);
            },
            Instruction::REM(rd, rs1, rs2) => {
                let result = rem_exec(self.get_register(rs1), self.get_register(rs2));
                self.set_register(rd, result);
            },
            Instruction::REMU(rd, rs1, rs2) => {
                let v1 = self.get_register(rs1);
                let v2 = self.get_register(rs2);
                let result: u32 = if v2 == 0 {
                    v1
                } else {
                    v1 % v2
                };
                self.set_register(rd, result);
            },
            Instruction::EBREAK => {
                self.running = false;
            },
            Instruction::MRET => {
                self.pc = self.saved_pc.wrapping_sub(size);
            },
            Instruction::LRW(rd, rs1, _) => {
                let addr = self.get_register(rs1);
                if !memory.is_readable(addr, 4) {
                    return Err(ExecFault::UnmappedAccess);
                }
                let v = memory.read_word(addr);
                self.set_register(rd, v);
            },
            Instruction::SCW(rd, rs1, rs2) => {
                let addr = self.get_register(rs1);
                if !memory.is_writable(addr, 4) {
                    return Err(ExecFault::UnmappedAccess);
                }
                let word = self.get_register(rs2);
                memory.write_word(addr, word);
                self.set_register(rd, 0);
            },
            Instruction::AMOSWAPW(rd, rs1, rs2) => {
                let addr = self.get_register(rs1);
                if !(memory.is_readable(addr, 4) && memory.is_writable(addr, 4)) {
                    return Err(ExecFault::UnmappedAccess);
                }
                let op1 = memory.read_word(addr);
                let op2 = self.get_register(rs2);
                memory.write_word(addr, op2);
                self.set_register(rd, op1);
            },
            Instruction::AMOADDW(rd, rs1, rs2) => {
                let addr = self.get_register(rs1);
                if !(memory.is_readable(addr, 4) && memory.is_writable(addr, 4)) {
                    return Err(ExecFault::UnmappedAccess);
                }
                let op1 = memory.read_word(addr);
                let op2 = self.get_register(rs2);
                let result = op1.wrapping_add(op2);
                memory.write_word(addr, result);
                self.set_register(rd, op1);
            },
            Instruction::AMOANDW(rd, rs1, rs2) => {
                let addr = self.get_register(rs1);
                if !(memory.is_readable(addr, 4) && memory.is_writable(addr, 4)) {
                    return Err(ExecFault::UnmappedAccess);
                }
                let op1 = memory.read_word(addr);
                let op2 = self.get_register(rs2);
                memory.write_word(addr, op1 & op2);
                self.set_register(rd, op1);
            },
            Instruction::AMOORW(rd, rs1, rs2) => {
                let addr = self.get_register(rs1);
                if !(memory.is_readable(addr, 4) && memory.is_writable(addr, 4)) {
                    return Err(ExecFault::UnmappedAccess);
                }
                let op1 = memory.read_word(addr);
                let op2 = self.get_register(rs2);
                memory.write_word(addr, op1 | op2);
                self.set_register(rd, op1);
            },
            Instruction::AMOXORW(rd, rs1, rs2) => {
                let addr = self.get_register(rs1);
                if !(memory.is_readable(addr, 4) && memory.is_writable(addr, 4)) {
                    return Err(ExecFault::UnmappedAccess);
                }
                let op1 = memory.read_word(addr);
                let op2 = self.get_register(rs2);
                memory.write_word(addr, op1 ^ op2);
                self.set_register(rd, op1);
            },
            Instruction::AMOMAXW(rd, rs1, rs2) => {
                let addr = self.get_register(rs1);
                if !(memory.is_readable(addr, 4) && memory.is_writable(addr, 4)) {
                    return Err(ExecFault::UnmappedAccess);
                }
                let op1 = memory.read_word(addr);
                let op2 = self.get_register(rs2);
                let s1 = #[verifier::truncate] (op1 as i32);
                let s2 = #[verifier::truncate] (op2 as i32);
                let result = if s1 >= s2 {
                    op1
                } else {
                    op2
                };
                memory.write_word(addr, result);
                self.set_register(rd, op1);
            },
            Instruction::AMOMAXUW(rd, rs1, rs2) => {
                let addr = self.get_register(rs1);
                if !(memory.is_readable(addr, 4) && memory.is_writable(addr, 4)) {
                    return Err(ExecFault::UnmappedAccess);
                }
                let op1 = memory.read_word(addr);
                let op2 = self.get_register(rs2);
                let result = if op1 >= op2 {
                    op1
                } else {
                    op2
                };
                memory.write_word(addr, result);
                self.set_register(rd, op1);
            },
            Instruction::AMOMINW(rd, rs1, rs2) => {
                let addr = self.get_register(rs1);
                if !(memory.is_readable(addr, 4) && memory.is_writable(addr, 4)) {
                    return Err(ExecFault::UnmappedAccess);
                }
                let op1 = memory.read_word(addr);
                let op2 = self.get_register(rs2);
                let s1 = #[verifier::truncate] (op1 as i32);
                let s2 = #[verifier::truncate] (op2 as i32);
                let result = if s1 <= s2 {
                    op1
                } else {
                    op2
                };
                memory.write_word(addr, result);
                self.set_register(rd, op1);
            },
            Instruction::AMOMINUW(rd, rs1, rs2) => {
                let addr = self.get_register(rs1);
                if !(memory.is_readable(addr, 4) && memory.is_writable(addr, 4)) {
                    return Err(ExecFault::UnmappedAccess);
                }
                let op1 = memory.read_word(addr);
                let op2 = self.get_register(rs2);
                let result = if op1 <= op2 {
                    op1
                } else {
                    op2
                };
                memory.write_word(addr, result);
                self.set_register(rd, op1);
            },
            Instruction::CSRRW => {},
            Instruction::CSRRS => {},
            Instruction::CSRRC => {},
            Instruction::CSRRWI => {},
            Instruction::CSRRSI => {},
            Instruction::CSRRCI => {},
            Instruction::INVALID => {
                return Err(ExecFault::InvalidInstruction);
            },
        }
        Ok(())
    }

    /// Fetch, decode and execute until the core halts or an execution
    /// fault aborts the loop (`None`).  Decoded instructions within the
    /// cache window are decoded once and reused; the cache is never
    /// expelled, so code modified after its first execution keeps its
    /// old decode (`cache_fetch` says exactly that).
    ///
    /// A halt leaves the machine some whole number of rounds past the
    /// initial state (`runs_to`): in particular the PC has advanced by
    /// the size of the halting `EBREAK` itself, past its address.  A
    /// `None` result means the machine ran into a round that cannot
    /// complete — an unmapped fetch or a faulting instruction after
    /// the interrupt poll — or a saturated cycle counter.
    #[verifier::rlimit(100)]
    pub fn run(&mut self, memory: &mut AddressSpace) -> (r: Option<CpuEvent>)
        requires
            old(self).wf(),
            old(memory).inv(),
        ensures
            final(self).wf(),
            final(memory).inv(),
            r is Some ==> r == Some(CpuEvent::Halted) && !final(self)@.running,
            r == Some(CpuEvent::Halted) ==> exists|n: nat, cache: Seq<WrappedInstruction>|
                #[trigger] runs_to(
                    old(self)@,
                    *old(memory),
                    init_cache(),
                    final(self)@,
                    *final(memory),
                    cache,
                    n,
                ),
            r is None ==> final(self)@.cycles == u64::MAX || exists|
                n: nat,
                c: CpuView,
                m: AddressSpace,
                cache: Seq<WrappedInstruction>,
            |
                {
                    &&& #[trigger] runs_to(
                        old(self)@,
                        *old(memory),
                        init_cache(),
                        c,
                        m,
                        cache,
                        n,
                    )
                    &&& poll_rel(c, m, final(self)@, *final(memory))
                    &&& run_stuck(final(self)@, *final(memory), cache)
                },
            !old(self)@.running ==> final(self)@ == old(self)@ && *final(memory) == *old(memory)
                && r == Some(CpuEvent::Halted),
    {
        let mut instruction_cache: Vec<WrappedInstruction> = vec![WrappedInstruction {
            instruction: Instruction::INVALID,
            size: 0,
        };INSTRUCTION_CACHE_SIZE];
        proof {
            assert(instruction_cache@ =~= init_cache());
        }
        let ghost mut rounds: nat = 0;

        while self.running
            invariant
                self.wf(),
                memory.inv(),
                instruction_cache@.len() == INSTRUCTION_CACHE_SIZE,
                forall|j: int|
                    0 <= j < instruction_cache@.len() ==> wf_instr(
                        (#[trigger] instruction_cache@[j]).instruction,
                    ),
                runs_to(
                    old(self)@,
                    *old(memory),
                    init_cache(),
                    self@,
                    *memory,
                    instruction_cache@,
                    rounds,
                ),
                !old(self)@.running ==> self@ == old(self)@ && *memory == *old(memory),
            decreases u64::MAX - self.cycle_counter,
        {
            let ghost c_in = self@;
            let ghost m_in = *memory;
            let ghost cache_in = instruction_cache@;
            match memory.check_for_interrupt() {
                Some(new_pc) => {
                    self.interrupt(new_pc);
                },
                None => {},
            }
            let ghost c_polled = self@;
            let ghost m_polled = *memory;
            proof {
                assert(poll_rel(c_in, m_in, c_polled, m_polled));
            }
            if !memory.is_readable(self.pc, 4) {
                proof {
                    assert(run_stuck(self@, *memory, cache_in));
                }
                return None;
            }
            let wi: WrappedInstruction;
            let pc_index = self.pc as usize;
            if pc_index < INSTRUCTION_CACHE_SIZE {
                let cached = instruction_cache[pc_index];
                if cached.instruction == Instruction::INVALID {
                    instruction_cache[pc_index] = WrappedInstruction::new(
                        memory.read_word(self.pc),
                    );
                }
                wi = instruction_cache[pc_index];
            } else {
                wi = WrappedInstruction::new(memory.read_word(self.pc));
            }
            proof {
                assert(wi == cache_fetch(cache_in, c_polled, m_polled));
                assert(instruction_cache@ =~= cache_after_fetch(cache_in, c_polled, m_polled));
            }
            match self.execute_instruction(&wi.instruction, wi.size, memory) {
                Ok(()) => {
                    let ghost cx = self@;
                    self.pc = self.pc.wrapping_add(wi.size);
                    if self.cycle_counter == u64::MAX {
                        // The cycle counter is monotonic and never wraps;
                        // a saturated counter aborts the loop.
                        return None;
                    }
                    self.cycle_counter = self.cycle_counter + 1;
                    proof {
                        assert(self@ == (CpuView {
                            pc: u32_specs::wrapping_add(
                                cx.pc,
                                cache_fetch(cache_in, c_polled, m_polled).size,
                            ),
                            cycles: (cx.cycles + 1) as u64,
                            ..cx
                        }));
                        lemma_runs_to_step(
                            old(self)@,
                            *old(memory),
                            init_cache(),
                            c_in,
                            m_in,
                            cache_in,
                            c_polled,
                            m_polled,
                            cx,
                            self@,
                            *memory,
                            instruction_cache@,
                            rounds,
                        );
                        rounds = rounds + 1;
                    }
                },
                Err(_) => {
                    proof {
                        assert(exec_fault(
                            cache_fetch(cache_in, c_polled, m_polled).instruction,
                            c_polled,
                            m_polled,
                        ));
                        assert(run_stuck(self@, *memory, cache_in));
                    }
                    return None;
                },
            }
        }

        Some(CpuEvent::Halted)
    }

    /// Execute exactly one instruction, then report whether the core
    /// halted or landed on a breakpoint.
    pub fn step(&mut self, memory: &mut AddressSpace) -> (r: Option<CpuEvent>)
        requires
            old(self).wf(),
            old(memory).inv(),
            can_step(old(self)@, *old(memory)),
        ensures
            final(self).wf(),
            final(memory).inv(),
            step_rel(old(self)@, *old(memory), final(self)@, *final(memory)),
            r == step_event(final(self)@),
            old(self)@.cycles < u64::MAX ==> final(self)@.cycles == old(self)@.cycles + 1,
    {
        let wrapped_instruction = WrappedInstruction::new(memory.read_word(self.pc));

        let instruction = wrapped_instruction.instruction;
        let size = wrapped_instruction.size;

        let result = self.execute_instruction(&instruction, size, memory);
        proof {
            assert(result is Ok);
        }
        let ghost cmid = self@;
        self.pc = self.pc.wrapping_add(size);
        self.cycle_counter = self.cycle_counter.wrapping_add(1);
        proof {
            let wi = decode_wrapped(old(memory).word_at(old(self)@.pc));
            assert(exec_rel(wi.instruction, wi.size, old(self)@, *old(memory), cmid, *memory));
            assert(self@ == (CpuView {
                pc: u32_specs::wrapping_add(cmid.pc, wi.size),
                cycles: u64_specs::wrapping_add(cmid.cycles, 1),
                ..cmid
            }));
            assert(cmid.cycles == old(self)@.cycles);
        }

        let breakpoint_hit = self.is_breakpoint(self.pc);

        if !self.running {
            Some(CpuEvent::Halted)
        } else if breakpoint_hit {
            Some(CpuEvent::Breakpoint)
        } else {
            None
        }
    }

    /// Whether a whole `step` from the current state would fault: the
    /// executable form of `can_step`.
    pub fn can_step_now(&self, memory: &AddressSpace) -> (r: bool)
        requires
            self.wf(),
            memory.inv(),
        ensures
            r == can_step(self@, *memory),
    {
        if !memory.is_readable(self.pc, 4) {
            return false;
        }
        let wrapped_instruction = WrappedInstruction::new(memory.read_word(self.pc));
        match wrapped_instruction.instruction {
            Instruction::INVALID => false,
            Instruction::LB(_, rs1, imm) => memory.is_readable(self.calculate_address(rs1, imm), 1),
            Instruction::LBU(_, rs1, imm) => memory.is_readable(
                self.calculate_address(rs1, imm),
                1,
            ),
            Instruction::LH(_, rs1, imm) => memory.is_readable(self.calculate_address(rs1, imm), 2),
            Instruction::LHU(_, rs1, imm) => memory.is_readable(
                self.calculate_address(rs1, imm),
                2,
            ),
            Instruction::LW(_, rs1, imm) => memory.is_readable(self.calculate_address(rs1, imm), 4),
            Instruction::SB(rs1, _, imm) => memory.is_writable(self.calculate_address(rs1, imm), 1),
            Instruction::SH(rs1, _, imm) => memory.is_writable(self.calculate_address(rs1, imm), 2),
            Instruction::SW(rs1, _, imm) => memory.is_writable(self.calculate_address(rs1, imm), 4),
            Instruction::LRW(_, rs1, _) => memory.is_readable(self.get_register(rs1), 4),
            Instruction::SCW(_, rs1, _) => memory.is_writable(self.get_register(rs1), 4),
            Instruction::AMOSWAPW(_, rs1, _) => self.amo_target_ok(memory, rs1),
            Instruction::AMOADDW(_, rs1, _) => self.amo_target_ok(memory, rs1),
            Instruction::AMOXORW(_, rs1, _) => self.amo_target_ok(memory, rs1),
            Instruction::AMOANDW(_, rs1, _) => self.amo_target_ok(memory, rs1),
            Instruction::AMOORW(_, rs1, _) => self.amo_target_ok(memory, rs1),
            Instruction::AMOMINW(_, rs1, _) => self.amo_target_ok(memory, rs1),
            Instruction::AMOMAXW(_, rs1, _) => self.amo_target_ok(memory, rs1),
            Instruction::AMOMINUW(_, rs1, _) => self.amo_target_ok(memory, rs1),
            Instruction::AMOMAXUW(_, rs1, _) => self.amo_target_ok(memory, rs1),
            _ => true,
        }
    }

    /// Whether an atomic read-modify-write at the address in `rs1` is
    /// mapped for both directions.
    fn amo_target_ok(&self, memory: &AddressSpace, rs1: usize) -> (r: bool)
        requires
            self.wf(),
            memory.inv(),
            rs1 < 32,
        ensures
            r == (memory.readable(self@.regs[rs1 as int], 4) && memory.writable(
                self@.regs[rs1 as int],
                4,
            )),
    {
        let addr = self.get_register(rs1);
        memory.is_readable(addr, 4) && memory.is_writable(addr, 4)
    }
}

impl Default for Cpu {
    /// Identical to `Cpu::new`: a fresh core.
    fn default() -> (r: Self)
        ensures
            r.wf(),
            r@.regs.len() == 32,
            forall|i: int| 0 <= i < 32 ==> r@.regs[i] == 0,
            r@.pc == 0,
            r@.running,
            r@.cycles == 0,
            r@.saved_pc == 0,
            r@.breakpoints == Set::<Address>::empty(),
    {
        Self::new()
    }
}

/// Register-zero invariant: a write to register zero is discarded, so
/// after any sequence of writes to it the register still reads zero.
pub proof fn lemma_register_zero(c: Cpu, v: u32)
    requires
        c.wf(),
    ensures
        upd_reg(c@.regs, 0, v) == c@.regs,
        c@.regs[0] == 0,
{
}

/// PC advancement: one step over a non-control instruction moves the
/// PC forward by exactly the instruction's encoded size.
pub proof fn lemma_pc_advancement(c0: CpuView, m0: AddressSpace, c1: CpuView, m1: AddressSpace)
    requires
        step_rel(c0, m0, c1, m1),
        !is_control(decode_wrapped(m0.word_at(c0.pc)).instruction),
    ensures
        c1.pc == u32_specs::wrapping_add(c0.pc, decode_wrapped(m0.word_at(c0.pc)).size),
{
    let wi = decode_wrapped(m0.word_at(c0.pc));
    let cmid = choose|cmid: CpuView|
        {
            &&& #[trigger] exec_rel(wi.instruction, wi.size, c0, m0, cmid, m1)
            &&& c1 == (CpuView {
                pc: u32_specs::wrapping_add(cmid.pc, wi.size),
                cycles: u64_specs::wrapping_add(cmid.cycles, 1),
                ..cmid
            })
        };
    assert(cmid.pc == c0.pc);
}

/// Branch semantics: whether a branch is taken follows the standard
/// ordering of its mnemonic, whatever its operand fields.
pub proof fn lemma_branch_semantics(a: u32, b: u32)
    ensures
        forall|rs1: usize, rs2: usize, imm: u32|
            #[trigger] branch_taken(Instruction::BEQ(rs1, rs2, imm), a, b) == (a == b),
        forall|rs1: usize, rs2: usize, imm: u32|
            #[trigger] branch_taken(Instruction::BNE(rs1, rs2, imm), a, b) == (a != b),
        forall|rs1: usize, rs2: usize, imm: u32|
            #[trigger] branch_taken(Instruction::BLT(rs1, rs2, imm), a, b) == (s32(a) < s32(b)),
        forall|rs1: usize, rs2: usize, imm: u32|
            #[trigger] branch_taken(Instruction::BGE(rs1, rs2, imm), a, b) == (s32(a) >= s32(b)),
        forall|rs1: usize, rs2: usize, imm: u32|
            #[trigger] branch_taken(Instruction::BLTU(rs1, rs2, imm), a, b) == (a < b),
        forall|rs1: usize, rs2: usize, imm: u32|
            #[trigger] branch_taken(Instruction::BGEU(rs1, rs2, imm), a, b) == (a >= b),
{
}

/// Shift masking: a register shift amount acts only through its value
/// modulo 32.
pub proof fn lemma_shift_masking(v: u32, n: u32)
    ensures
        v << (n & 0x1f) == v << ((n % 32) as u32),
        v >> (n & 0x1f) == v >> ((n % 32) as u32),
        ((v as i32) >> (n & 0x1f)) as u32 == ((v as i32) >> ((n % 32) as u32)) as u32,
{
    assert(n & 0x1f == n % 32) by (bit_vector);
}

} // verus!
