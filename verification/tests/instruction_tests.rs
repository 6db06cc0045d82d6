use riscv_emu::instruction::{Instruction, WrappedInstruction};

#[test]
fn test_lui() {
    assert_eq!(
        Instruction::new(0b11111111111111111111_00001_0110111),
        Instruction::LUI(1, 0xfffff)
    );
}

#[test]
fn test_auipc() {
    assert_eq!(
        Instruction::new(0b11111111111111111111_00001_0010111),
        Instruction::AUIPC(1, 0xfffff)
    );
}

#[test]
fn instruction_test_jal() {
    assert_eq!(
        Instruction::new(0b01110100000100001010_00001_1101111),
        Instruction::JAL(1, 0xaf40 / 2)
    );
}

#[test]
fn instruction_test_jalr() {
    assert_eq!(
        Instruction::new(0b00010000000000010000_00001_1100111),
        Instruction::JALR(1, 2, 0x100)
    );
}

#[test]
fn test_branch() {
    assert_eq!(
        Instruction::new(0b0111111_00010_00001_000_11101_1100011),
        Instruction::BEQ(1, 2, 0xffc / 2)
    );
    assert_eq!(
        Instruction::new(0b0111111_00010_00001_001_11101_1100011),
        Instruction::BNE(1, 2, 0xffc / 2)
    );
    assert_eq!(
        Instruction::new(0b0111111_00010_00001_100_11101_1100011),
        Instruction::BLT(1, 2, 0xffc / 2)
    );
    assert_eq!(
        Instruction::new(0b0111111_00010_00001_101_11101_1100011),
        Instruction::BGE(1, 2, 0xffc / 2)
    );
    assert_eq!(
        Instruction::new(0b0111111_00010_00001_110_11101_1100011),
        Instruction::BLTU(1, 2, 0xffc / 2)
    );
    assert_eq!(
        Instruction::new(0b0111111_00010_00001_111_11101_1100011),
        Instruction::BGEU(1, 2, 0xffc / 2)
    );
}

#[test]
fn test_load() {
    assert_eq!(
        Instruction::new(0b100000000000_00010_000_00001_0000011),
        Instruction::LB(1, 2, -2048i32)
    );
    assert_eq!(
        Instruction::new(0b100000000000_00010_001_00001_0000011),
        Instruction::LH(1, 2, -2048i32)
    );
    assert_eq!(
        Instruction::new(0b100000000000_00010_010_00001_0000011),
        Instruction::LW(1, 2, -2048i32)
    );
    assert_eq!(
        Instruction::new(0b100000000000_00010_100_00001_0000011),
        Instruction::LBU(1, 2, -2048i32)
    );
    assert_eq!(
        Instruction::new(0b100000000000_00010_101_00001_0000011),
        Instruction::LHU(1, 2, -2048i32)
    );
}

#[test]
fn test_store() {
    assert_eq!(
        Instruction::new(0b1000000_00010_00001_000_00000_0100011),
        Instruction::SB(1, 2, -2048i32)
    );
    assert_eq!(
        Instruction::new(0b1000000_00010_00001_001_00000_0100011),
        Instruction::SH(1, 2, -2048i32)
    );
    assert_eq!(
        Instruction::new(0b1000000_00010_00001_010_00000_0100011),
        Instruction::SW(1, 2, -2048i32)
    );
}

#[test]
fn instruction_test_immediate() {
    assert_eq!(
        Instruction::new(0b1000000_00000_00010_000_00001_0010011),
        Instruction::ADDI(1, 2, -2048i32 as u32)
    );
    assert_eq!(
        Instruction::new(0b1000000_00000_00010_010_00001_0010011),
        Instruction::SLTI(1, 2, -2048i32 as u32)
    );
    assert_eq!(
        Instruction::new(0b1000000_00000_00010_011_00001_0010011),
        Instruction::SLTIU(1, 2, -2048i32 as u32)
    );
    assert_eq!(
        Instruction::new(0b1000000_00000_00010_100_00001_0010011),
        Instruction::XORI(1, 2, -2048i32 as u32)
    );
    assert_eq!(
        Instruction::new(0b1000000_00000_00010_110_00001_0010011),
        Instruction::ORI(1, 2, -2048i32 as u32)
    );
    assert_eq!(
        Instruction::new(0b1000000_00000_00010_111_00001_0010011),
        Instruction::ANDI(1, 2, -2048i32 as u32)
    );
    assert_eq!(
        Instruction::new(0b0000000_11111_00010_001_00001_0010011),
        Instruction::SLLI(1, 2, 31)
    );
    assert_eq!(
        Instruction::new(0b0000000_11111_00010_101_00001_0010011),
        Instruction::SRLI(1, 2, 31)
    );
    assert_eq!(
        Instruction::new(0b0100000_11111_00010_101_00001_0010011),
        Instruction::SRAI(1, 2, 31)
    );
}

#[test]
fn test_arithmetic_register() {
    assert_eq!(
        Instruction::new(0b0000000_00011_00010_000_00001_0110011),
        Instruction::ADD(1, 2, 3)
    );
    assert_eq!(
        Instruction::new(0b0100000_00011_00010_000_00001_0110011),
        Instruction::SUB(1, 2, 3)
    );
    assert_eq!(
        Instruction::new(0b0000000_00011_00010_001_00001_0110011),
        Instruction::SLL(1, 2, 3)
    );
    assert_eq!(
        Instruction::new(0b0000000_00011_00010_010_00001_0110011),
        Instruction::SLT(1, 2, 3)
    );
    assert_eq!(
        Instruction::new(0b0000000_00011_00010_011_00001_0110011),
        Instruction::SLTU(1, 2, 3)
    );
    assert_eq!(
        Instruction::new(0b0000000_00011_00010_100_00001_0110011),
        Instruction::XOR(1, 2, 3)
    );
    assert_eq!(
        Instruction::new(0b0000000_00011_00010_101_00001_0110011),
        Instruction::SRL(1, 2, 3)
    );
    assert_eq!(
        Instruction::new(0b0100000_00011_00010_101_00001_0110011),
        Instruction::SRA(1, 2, 3)
    );
    assert_eq!(
        Instruction::new(0b0000000_00011_00010_110_00001_0110011),
        Instruction::OR(1, 2, 3)
    );
    assert_eq!(
        Instruction::new(0b0000000_00011_00010_111_00001_0110011),
        Instruction::AND(1, 2, 3)
    );
    assert_eq!(
        Instruction::new(0b0000001_00011_00010_000_00001_0110011),
        Instruction::MUL(1, 2, 3)
    );
    assert_eq!(
        Instruction::new(0b0000001_00011_00010_001_00001_0110011),
        Instruction::MULH(1, 2, 3)
    );
    assert_eq!(
        Instruction::new(0b0000001_00011_00010_010_00001_0110011),
        Instruction::MULHSU(1, 2, 3)
    );
    assert_eq!(
        Instruction::new(0b0000001_00011_00010_011_00001_0110011),
        Instruction::MULHU(1, 2, 3)
    );
    assert_eq!(
        Instruction::new(0b0000001_00011_00010_100_00001_0110011),
        Instruction::DIV(1, 2, 3)
    );
    assert_eq!(
        Instruction::new(0b0000001_00011_00010_101_00001_0110011),
        Instruction::DIVU(1, 2, 3)
    );
    assert_eq!(
        Instruction::new(0b0000001_00011_00010_110_00001_0110011),
        Instruction::REM(1, 2, 3)
    );
    assert_eq!(
        Instruction::new(0b0000001_00011_00010_111_00001_0110011),
        Instruction::REMU(1, 2, 3)
    );
}

#[test]
fn test_atomics() {
    assert_eq!(
        Instruction::new(0b0001000_00000_00010_010_00001_0101111),
        Instruction::LRW(1, 2, 0)
    );
    assert_eq!(
        Instruction::new(0b0001100_00011_00010_010_00001_0101111),
        Instruction::SCW(1, 2, 3)
    );
    assert_eq!(
        Instruction::new(0b0000100_00011_00010_010_00001_0101111),
        Instruction::AMOSWAPW(1, 2, 3)
    );
    assert_eq!(
        Instruction::new(0b0000000_00011_00010_010_00001_0101111),
        Instruction::AMOADDW(1, 2, 3)
    );
    assert_eq!(
        Instruction::new(0b0010000_00011_00010_010_00001_0101111),
        Instruction::AMOXORW(1, 2, 3)
    );
    assert_eq!(
        Instruction::new(0b0110000_00011_00010_010_00001_0101111),
        Instruction::AMOANDW(1, 2, 3)
    );
    assert_eq!(
        Instruction::new(0b0100000_00011_00010_010_00001_0101111),
        Instruction::AMOORW(1, 2, 3)
    );
    assert_eq!(
        Instruction::new(0b1000000_00011_00010_010_00001_0101111),
        Instruction::AMOMINW(1, 2, 3)
    );
    assert_eq!(
        Instruction::new(0b1010000_00011_00010_010_00001_0101111),
        Instruction::AMOMAXW(1, 2, 3)
    );
    assert_eq!(
        Instruction::new(0b1100000_00011_00010_010_00001_0101111),
        Instruction::AMOMINUW(1, 2, 3)
    );
    assert_eq!(
        Instruction::new(0b1110000_00011_00010_010_00001_0101111),
        Instruction::AMOMAXUW(1, 2, 3)
    );
}

#[test]
fn test_ebreak() {
    assert_eq!(Instruction::new(0x00100073), Instruction::EBREAK);
}

#[test]
fn test_mret() {
    assert_eq!(Instruction::new(0x30200073), Instruction::MRET);
}

#[test]
fn test_decode_total() {
    // Arbitrary words decode without panicking; unrecognised ones are
    // INVALID.
    assert_eq!(Instruction::new(0), Instruction::INVALID);
    assert_eq!(Instruction::new(0xFFFF_FFFF), Instruction::INVALID);
    assert!(matches!(Instruction::new(0xDEAD_BEEF), Instruction::JAL(_, _)));
    assert_eq!(Instruction::new(0xDEAD_BEE0), Instruction::INVALID);
    assert_eq!(Instruction::new_compressed(0x1234), Instruction::INVALID);
    let mut w: u64 = 0x12345;
    for _ in 0..1000 {
        // A small linear-congruential sweep over sample words.
        w = w.wrapping_mul(6364136223846793005).wrapping_add(1442695040888963407);
        let _ = Instruction::new(w as u32);
    }
}

#[test]
fn test_wrapped_sizes() {
    let full = WrappedInstruction::new(0x00100073);
    assert_eq!(full.size, 4);
    assert_eq!(full.instruction, Instruction::EBREAK);
    let compressed = WrappedInstruction::new(0x0001);
    assert_eq!(compressed.size, 2);
    assert_eq!(compressed.instruction, Instruction::INVALID);
}
