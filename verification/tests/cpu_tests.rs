use riscv_emu::cpu::Cpu;
use riscv_emu::instruction::Instruction;
use riscv_emu::memory::addressspace::AddressSpace;

fn immediate_case(make: fn(usize, usize, u32) -> Instruction, first: u32, second: u32, result: u32) {
    let mut memory = AddressSpace::new();
    let mut cpu = Cpu::new();
    cpu.set_register(2, first);

    let _ = cpu.execute_instruction(&make(1, 2, second), 4, &mut memory);
    assert_eq!(cpu.get_register(1), result);
}

fn register_case(make: fn(usize, usize, usize) -> Instruction, first: u32, second: u32, result: u32) {
    let mut memory = AddressSpace::new();
    let mut cpu = Cpu::new();
    cpu.set_register(2, first);
    cpu.set_register(3, second);

    let _ = cpu.execute_instruction(&make(1, 2, 3), 4, &mut memory);
    assert_eq!(cpu.get_register(1), result);
}

fn branch_case(
    make: fn(usize, usize, u32) -> Instruction,
    first: u32,
    second: u32,
    offset: u32,
    expect_jump: bool,
) {
    let mut memory = AddressSpace::new();
    let mut cpu = Cpu::new();
    cpu.set_register(2, first);
    cpu.set_register(3, second);
    cpu.set_pc(80);

    let _ = cpu.execute_instruction(&make(2, 3, offset), 4, &mut memory);

    if expect_jump {
        assert_eq!((80i32).wrapping_add(2 * offset as i32) as u32 - 4, cpu.get_pc());
    } else {
        assert_eq!(cpu.get_pc(), 80);
    }
}

#[test]
fn cpu_test_immediate() {
    immediate_case(Instruction::ADDI, 10, 20, 30);
    immediate_case(Instruction::XORI, 0b1010, 0b0110, 0b1100);
    immediate_case(Instruction::ORI, 0b1010, 0b0110, 0b1110);
    immediate_case(Instruction::ANDI, 0b1010, 0b0110, 0b0010);

    immediate_case(Instruction::SLTI, 0, 0, 0);
    immediate_case(Instruction::SLTI, 0, -1i32 as u32, 0);
    immediate_case(Instruction::SLTI, -1i32 as u32, 0, 1);

    immediate_case(Instruction::SLTIU, 0, 0, 0);
    immediate_case(Instruction::SLTIU, -1i32 as u32, 0, 0);
    immediate_case(Instruction::SLTIU, 0, 1, 1);
}

#[test]
fn test_register_ops() {
    register_case(Instruction::ADD, 10, 20, 30);
    register_case(Instruction::SUB, 10, 20, -10i32 as u32);
    register_case(Instruction::XOR, 0b1010, 0b0110, 0b1100);
    register_case(Instruction::OR, 0b1010, 0b0110, 0b1110);
    register_case(Instruction::AND, 0b1010, 0b0110, 0b0010);
    register_case(Instruction::SLL, 0b1010, 2, 0b101000);
    register_case(Instruction::SRL, 0b1010, 2, 0b10);
    register_case(
        Instruction::SRA,
        0b1000_0000_0000_0000_0000_0000_0000_0010,
        1,
        0b1100_0000_0000_0000_0000_0000_0000_0001,
    );

    register_case(Instruction::SLT, 0, 0, 0);
    register_case(Instruction::SLT, 0, -1i32 as u32, 0);
    register_case(Instruction::SLT, -1i32 as u32, 0, 1);

    register_case(Instruction::SLTU, 0, 0, 0);
    register_case(Instruction::SLTU, -1i32 as u32, 0, 0);
    register_case(Instruction::SLTU, 0, 1, 1);
}

#[test]
fn test_mul() {
    register_case(Instruction::MUL, 0x00007e00, 0xb6db6db7, 0x00001200);
    register_case(Instruction::MUL, 0x00007fc0, 0xb6db6db7, 0x00001240);
    register_case(Instruction::MUL, 0x00000000, 0x00000000, 0x00000000);
    register_case(Instruction::MUL, 0x00000001, 0x00000001, 0x00000001);
    register_case(Instruction::MUL, 0x00000003, 0x00000007, 0x00000015);
    register_case(Instruction::MUL, 0x00000000, 0xffff8000, 0x00000000);
    register_case(Instruction::MUL, 0x80000000, 0x00000000, 0x00000000);
    register_case(Instruction::MUL, 0x80000000, 0xffff8000, 0x00000000);
    register_case(Instruction::MUL, 0xaaaaaaab, 0x0002fe7d, 0x0000ff7f);
    register_case(Instruction::MUL, 0x0002fe7d, 0xaaaaaaab, 0x0000ff7f);
    register_case(Instruction::MUL, 0xff000000, 0xff000000, 0x00000000);
    register_case(Instruction::MUL, 0xffffffff, 0xffffffff, 0x00000001);
    register_case(Instruction::MUL, 0xffffffff, 0x00000001, 0xffffffff);
    register_case(Instruction::MUL, 0x00000001, 0xffffffff, 0xffffffff);
}

#[test]
fn test_mulh() {
    register_case(Instruction::MULH, 0x00000000, 0x00000000, 0x00000000);
    register_case(Instruction::MULH, 0x00000001, 0x00000001, 0x00000000);
    register_case(Instruction::MULH, 0x00000003, 0x00000007, 0x00000000);
    register_case(Instruction::MULH, 0x00000000, 0xffff8000, 0x00000000);
    register_case(Instruction::MULH, 0x80000000, 0x00000000, 0x00000000);
    register_case(Instruction::MULH, 0x80000000, 0x00000000, 0x00000000);
    register_case(Instruction::MULH, 0xaaaaaaab, 0x0002fe7d, 0xffff0081);
    register_case(Instruction::MULH, 0x0002fe7d, 0xaaaaaaab, 0xffff0081);
    register_case(Instruction::MULH, 0xff000000, 0xff000000, 0x00010000);
    register_case(Instruction::MULH, 0xffffffff, 0xffffffff, 0x00000000);
    register_case(Instruction::MULH, 0xffffffff, 0x00000001, 0xffffffff);
    register_case(Instruction::MULH, 0x00000001, 0xffffffff, 0xffffffff);
}

#[test]
fn test_mulhu() {
    register_case(Instruction::MULHU, 0x00000000, 0x00000000, 0x00000000);
    register_case(Instruction::MULHU, 0x00000001, 0x00000001, 0x00000000);
    register_case(Instruction::MULHU, 0x00000003, 0x00000007, 0x00000000);
    register_case(Instruction::MULHU, 0x00000000, 0xffff8000, 0x00000000);
    register_case(Instruction::MULHU, 0x80000000, 0x00000000, 0x00000000);
    register_case(Instruction::MULHU, 0x80000000, 0xffff8000, 0x7fffc000);
    register_case(Instruction::MULHU, 0xaaaaaaab, 0x0002fe7d, 0x0001fefe);
    register_case(Instruction::MULHU, 0x0002fe7d, 0xaaaaaaab, 0x0001fefe);
    register_case(Instruction::MULHU, 0xff000000, 0xff000000, 0xfe010000);
    register_case(Instruction::MULHU, 0xffffffff, 0xffffffff, 0xfffffffe);
    register_case(Instruction::MULHU, 0xffffffff, 0x00000001, 0x00000000);
    register_case(Instruction::MULHU, 0x00000001, 0xffffffff, 0x00000000);
}

#[test]
fn test_mulhsu() {
    register_case(Instruction::MULHSU, 0x00000000, 0x00000000, 0x00000000);
    register_case(Instruction::MULHSU, 0x00000001, 0x00000001, 0x00000000);
    register_case(Instruction::MULHSU, 0x00000003, 0x00000007, 0x00000000);
    register_case(Instruction::MULHSU, 0x00000000, 0xffff8000, 0x00000000);
    register_case(Instruction::MULHSU, 0x80000000, 0x00000000, 0x00000000);
    register_case(Instruction::MULHSU, 0x80000000, 0xffff8000, 0x80004000);
    register_case(Instruction::MULHSU, 0xaaaaaaab, 0x0002fe7d, 0xffff0081);
    register_case(Instruction::MULHSU, 0x0002fe7d, 0xaaaaaaab, 0x0001fefe);
    register_case(Instruction::MULHSU, 0xff000000, 0xff000000, 0xff010000);
    register_case(Instruction::MULHSU, 0xffffffff, 0xffffffff, 0xffffffff);
    register_case(Instruction::MULHSU, 0xffffffff, 0x00000001, 0xffffffff);
    register_case(Instruction::MULHSU, 0x00000001, 0xffffffff, 0x00000000);
}

#[test]
fn test_div() {
    register_case(Instruction::DIV, 20, 6, 3);
    register_case(Instruction::DIV, -20i32 as u32, 6, -3i32 as u32);
    register_case(Instruction::DIV, 20, -6i32 as u32, -3i32 as u32);
    register_case(Instruction::DIV, -20i32 as u32, -6i32 as u32, 3);
    register_case(Instruction::DIV, (-1i32 << 31) as u32, 1, (-1i32 << 31) as u32);
    register_case(Instruction::DIV, (-1i32 << 31) as u32, -1i32 as u32, (-1i32 << 31) as u32);
    register_case(Instruction::DIV, (-1i32 << 31) as u32, 0, -1i32 as u32);
    register_case(Instruction::DIV, 1, 0, -1i32 as u32);
    register_case(Instruction::DIV, 0, 0, -1i32 as u32);
}

#[test]
fn test_divu() {
    register_case(Instruction::DIVU, 20, 6, 3);
    register_case(Instruction::DIVU, -20i32 as u32, 6, 715827879);
    register_case(Instruction::DIVU, 20, -6i32 as u32, 0);
    register_case(Instruction::DIVU, -20i32 as u32, -6i32 as u32, 0);
    register_case(Instruction::DIVU, (-1i32 << 31) as u32, 1, (-1i32 << 31) as u32);
    register_case(Instruction::DIVU, (-1i32 << 31) as u32, -1i32 as u32, 0);
    register_case(Instruction::DIVU, (-1i32 << 31) as u32, 0, -1i32 as u32);
    register_case(Instruction::DIVU, 1, 0, -1i32 as u32);
    register_case(Instruction::DIVU, 0, 0, -1i32 as u32);
}

#[test]
fn test_rem() {
    register_case(Instruction::REM, 20, 6, 2);
    register_case(Instruction::REM, -20i32 as u32, 6, -2i32 as u32);
    register_case(Instruction::REM, 20, -6i32 as u32, 2);
    register_case(Instruction::REM, -20i32 as u32, -6i32 as u32, -2i32 as u32);
    register_case(Instruction::REM, (-1i32 << 31) as u32, 1, 0);
    register_case(Instruction::REM, (-1i32 << 31) as u32, -1i32 as u32, 0);
    register_case(Instruction::REM, (-1i32 << 31) as u32, 0, (-1i32 << 31) as u32);
    register_case(Instruction::REM, 1, 0, 1);
    register_case(Instruction::REM, 0, 0, 0);
}

#[test]
fn test_remu() {
    register_case(Instruction::REMU, 20, 6, 2);
    register_case(Instruction::REMU, -20i32 as u32, 6, 2);
    register_case(Instruction::REMU, 20, -6i32 as u32, 20);
    register_case(Instruction::REMU, -20i32 as u32, -6i32 as u32, -20i32 as u32);
    register_case(Instruction::REMU, (-1i32 << 31) as u32, 1, 0);
    register_case(Instruction::REMU, (-1i32 << 31) as u32, -1i32 as u32, (-1i32 << 31) as u32);
    register_case(Instruction::REMU, (-1i32 << 31) as u32, 0, (-1i32 << 31) as u32);
    register_case(Instruction::REMU, 1, 0, 1);
    register_case(Instruction::REMU, 0, 0, 0);
}

#[test]
fn cpu_test_jal() {
    fn t(offset: i32) {
        let mut memory = AddressSpace::new();
        let mut cpu = Cpu::new();
        cpu.set_pc(80);

        let _ = cpu.execute_instruction(&Instruction::JAL(1, offset as u32), 4, &mut memory);
        assert_eq!(cpu.get_register(1), 84);
        assert_eq!(cpu.get_pc(), (80 + offset * 2 - 4) as u32);
    }

    t(16);
    t(-16);
}

#[test]
fn cpu_test_jalr() {
    fn t(base: u32, offset: i32) {
        let mut memory = AddressSpace::new();
        let mut cpu = Cpu::new();
        cpu.set_register(2, base);
        cpu.set_pc(80);

        let _ = cpu.execute_instruction(&Instruction::JALR(1, 2, offset), 4, &mut memory);
        assert_eq!(cpu.get_register(1), 84);
        assert_eq!(cpu.get_pc(), ((base as i32 + offset - 4) as u32) & !1u32);
    }

    t(400, 4);
    t(400, -4);
    t(400, 1);
    t(400, -1);
}

#[test]
fn test_branching() {
    branch_case(Instruction::BEQ, 10, 10, 8, true);
    branch_case(Instruction::BEQ, -10i32 as u32, -10i32 as u32, 8, true);
    branch_case(Instruction::BEQ, 10, 9, 8, false);
    branch_case(Instruction::BEQ, -10i32 as u32, -9i32 as u32, 8, false);

    branch_case(Instruction::BNE, 10, 10, 8, false);
    branch_case(Instruction::BNE, -10i32 as u32, -10i32 as u32, 8, false);
    branch_case(Instruction::BNE, 10, 9, 8, true);
    branch_case(Instruction::BNE, -10i32 as u32, -9i32 as u32, 8, true);

    branch_case(Instruction::BLT, 10, 10, 8, false);
    branch_case(Instruction::BLT, 11, 10, 8, false);
    branch_case(Instruction::BLT, 9, 10, 8, true);
    branch_case(Instruction::BLT, -9i32 as u32, 10, 8, true);

    branch_case(Instruction::BGE, 10, 10, 8, true);
    branch_case(Instruction::BGE, 11, 10, 8, true);
    branch_case(Instruction::BGE, 9, 10, 8, false);
    branch_case(Instruction::BGE, -9i32 as u32, 10, 8, false);

    branch_case(Instruction::BLTU, -10i32 as u32, 10, 8, false);
    branch_case(Instruction::BLTU, 9, 10, 8, true);
    branch_case(Instruction::BLTU, 10, 10, 8, false);
    branch_case(Instruction::BLTU, -10i32 as u32, -9i32 as u32, 8, true);

    branch_case(Instruction::BGEU, -10i32 as u32, 10, 8, true);
    branch_case(Instruction::BGEU, 9, 10, 8, false);
    branch_case(Instruction::BGEU, 10, 10, 8, true);
    branch_case(Instruction::BGEU, -10i32 as u32, -9i32 as u32, 8, false);
}

#[test]
fn test_byte_store() {
    let mut memory = AddressSpace::new();
    let mut cpu = Cpu::new();

    cpu.set_register(1, 0xF0);
    cpu.set_register(2, 0xCAFEBABE);
    let _ = cpu.execute_instruction(&Instruction::SB(1, 2, 16), 4, &mut memory);
    assert_eq!(0, memory.read_byte(0xF0 + 16 - 1));
    assert_eq!(0xBE, memory.read_byte(0xF0 + 16));
    assert_eq!(0, memory.read_byte(0xF0 + 16 + 1));
}

#[test]
fn test_halfword_store() {
    let mut memory = AddressSpace::new();
    let mut cpu = Cpu::new();

    cpu.set_register(1, 0xF0);
    cpu.set_register(2, 0xCAFEBABE);
    let _ = cpu.execute_instruction(&Instruction::SH(1, 2, 16), 4, &mut memory);
    assert_eq!(0, memory.read_byte(0xF0 + 16 - 1));
    assert_eq!(0xBABE, memory.read_halfword(0xF0 + 16));
    assert_eq!(0, memory.read_byte(0xF0 + 16 + 3));
}

#[test]
fn test_word_store() {
    let mut memory = AddressSpace::new();
    let mut cpu = Cpu::new();

    cpu.set_register(1, 0xF0);
    cpu.set_register(2, 0xCAFEBABE);
    let _ = cpu.execute_instruction(&Instruction::SW(1, 2, 16), 4, &mut memory);
    assert_eq!(0, memory.read_byte(0xF0 + 16 - 1));
    assert_eq!(0xCAFEBABE, memory.read_word(0xF0 + 16));
    assert_eq!(0, memory.read_byte(0xF0 + 16 + 5));
}

#[test]
fn test_loads() {
    fn load_byte_case(make: fn(usize, usize, i32) -> Instruction, value: u8, expected: u32) {
        let mut memory = AddressSpace::new();
        memory.write_byte(0xF0 + 16, value);
        let mut cpu = Cpu::new();

        cpu.set_register(2, 0xF0);
        let _ = cpu.execute_instruction(&make(1, 2, 16), 4, &mut memory);
        assert_eq!(cpu.get_register(1), expected);
    }
    fn load_half_case(make: fn(usize, usize, i32) -> Instruction, value: u16, expected: u32) {
        let mut memory = AddressSpace::new();
        memory.write_halfword(0xF0 + 16, value);
        let mut cpu = Cpu::new();

        cpu.set_register(2, 0xF0);
        let _ = cpu.execute_instruction(&make(1, 2, 16), 4, &mut memory);
        assert_eq!(cpu.get_register(1), expected);
    }

    load_byte_case(Instruction::LB, 0b1111_1111, !0);
    load_byte_case(Instruction::LB, 0b0111_1111, 0b0111_1111);
    load_byte_case(Instruction::LBU, 0b1111_1111, 0b1111_1111);

    load_half_case(Instruction::LH, 0b1111_1111_1111_1111, !0);
    load_half_case(Instruction::LH, 0b0111_1111_1111_1111, 0b0111_1111_1111_1111);
    load_half_case(Instruction::LHU, 0b1111_1111_1111_1111, 0b1111_1111_1111_1111);

    let mut memory = AddressSpace::new();
    memory.write_word(0xF0 + 16, 0xCAFEBABE);
    let mut cpu = Cpu::new();
    cpu.set_register(2, 0xF0);
    let _ = cpu.execute_instruction(&Instruction::LW(1, 2, 16), 4, &mut memory);
    assert_eq!(cpu.get_register(1), 0xCAFEBABE);
}

#[test]
fn test_register() {
    let mut cpu = Cpu::new();

    cpu.set_register(1, 0xCAFEBABE);
    assert_eq!(cpu.get_register(1), 0xCAFEBABE);
    assert_eq!(cpu.get_register(0), 0);
    cpu.set_register(0, 0xCAFEBABE);
    assert_eq!(cpu.get_register(0), 0);
}
