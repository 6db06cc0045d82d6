use riscv_emu::cpu::{Cpu, CpuEvent};
use riscv_emu::error::EmulatorError;
use riscv_emu::instruction::Instruction;
use riscv_emu::loader::load_program;
use riscv_emu::memory::addressspace::AddressSpace;

/// Write a sequence of instruction words at address 0.
fn load_words(memory: &mut AddressSpace, words: &[u32]) {
    let mut address: u32 = 0;
    for &word in words {
        memory.write_word(address, word);
        address += 4;
    }
}

#[test]
fn test_arithmetic_round() {
    // ADDI x1, x0, 10; ADDI x2, x0, 20; ADD x3, x1, x2; EBREAK
    let mut memory = AddressSpace::new();
    load_words(&mut memory, &[0x00A00093, 0x01400113, 0x002081B3, 0x00100073]);
    let mut cpu = Cpu::new();

    let event = cpu.run(&mut memory);
    assert!(matches!(event, Some(CpuEvent::Halted)));
    assert_eq!(cpu.get_register(3), 30);
    assert_eq!(cpu.get_cycle_counter(), 4);
    // The PC has advanced past the EBREAK.
    assert_eq!(cpu.get_pc(), 16);
}

#[test]
fn test_signed_branch() {
    // ADDI x1, x0, -9; ADDI x2, x0, 10; BLT x1, x2, (taken, lands at 20);
    // EBREAK; NOP; EBREAK
    let mut memory = AddressSpace::new();
    load_words(
        &mut memory,
        &[0xFF700093, 0x00A00113, 0x0020C663, 0x00100073, 0x00000013, 0x00100073],
    );
    let mut cpu = Cpu::new();

    let event = cpu.run(&mut memory);
    assert!(matches!(event, Some(CpuEvent::Halted)));
    // The branch was taken: -9 < 10 signed, so the second EBREAK at 20
    // halted the core.
    assert_eq!(cpu.get_pc(), 24);
    assert_eq!(cpu.get_cycle_counter(), 4);

    // The not-taken path stops at the first EBREAK.
    let mut memory = AddressSpace::new();
    load_words(
        &mut memory,
        &[0x00A00093, 0xFF700113, 0x0020C663, 0x00100073, 0x00000013, 0x00100073],
    );
    let mut cpu = Cpu::new();
    let event = cpu.run(&mut memory);
    assert!(matches!(event, Some(CpuEvent::Halted)));
    assert_eq!(cpu.get_pc(), 16);
    assert_eq!(cpu.get_cycle_counter(), 4);
}

#[test]
fn test_console_output() {
    // ADDI x1, x0, 0x41; LUI x2, 0x20000; SB x1, 0(x2); EBREAK
    let mut memory = AddressSpace::new();
    load_words(&mut memory, &[0x04100093, 0x20000137, 0x00110023, 0x00100073]);
    let mut cpu = Cpu::new();

    let event = cpu.run(&mut memory);
    assert!(matches!(event, Some(CpuEvent::Halted)));
    assert_eq!(memory.debug.output, vec![0x41]);
}

#[test]
fn test_invalid_instruction_aborts() {
    // A word that decodes to INVALID aborts the run.
    let mut memory = AddressSpace::new();
    load_words(&mut memory, &[0xFFFF_FFFF]);
    let mut cpu = Cpu::new();

    let event = cpu.run(&mut memory);
    assert!(event.is_none());
    assert_eq!(cpu.get_cycle_counter(), 0);
}

#[test]
fn test_step_advances() {
    let mut memory = AddressSpace::new();
    load_words(&mut memory, &[0x00A00093, 0x00100073]);
    let mut cpu = Cpu::new();

    assert!(cpu.can_step_now(&memory));
    let event = cpu.step(&mut memory);
    assert!(event.is_none());
    assert_eq!(cpu.get_pc(), 4);
    assert_eq!(cpu.get_cycle_counter(), 1);
    assert_eq!(cpu.get_register(1), 10);

    let event = cpu.step(&mut memory);
    assert!(matches!(event, Some(CpuEvent::Halted)));
    assert_eq!(cpu.get_cycle_counter(), 2);
}

#[test]
fn test_step_breakpoint() {
    let mut memory = AddressSpace::new();
    load_words(&mut memory, &[0x00A00093, 0x01400113, 0x00100073]);
    let mut cpu = Cpu::new();
    cpu.add_breakpoint(4);

    let event = cpu.step(&mut memory);
    assert!(matches!(event, Some(CpuEvent::Breakpoint)));
    assert_eq!(cpu.get_pc(), 4);

    cpu.remove_breakpoint(4);
    cpu.set_pc(0);
    let event = cpu.step(&mut memory);
    assert!(event.is_none());
}

#[test]
fn test_reset() {
    let mut memory = AddressSpace::new();
    load_words(&mut memory, &[0x00A00093, 0x00100073]);
    let mut cpu = Cpu::new();
    let _ = cpu.run(&mut memory);
    assert!(cpu.get_cycle_counter() > 0);

    cpu.reset();
    assert_eq!(cpu.get_cycle_counter(), 0);
    assert_eq!(cpu.get_pc(), 0);
    assert_eq!(cpu.get_register(1), 0);
}

#[test]
fn test_shift_uses_low_five_bits() {
    // Only the shift amount modulo 32 is used.
    let mut memory = AddressSpace::new();
    let mut cpu = Cpu::new();
    cpu.set_register(2, 1);
    cpu.set_register(3, 33);
    let _ = cpu.execute_instruction(&Instruction::SLL(1, 2, 3), 4, &mut memory);
    assert_eq!(cpu.get_register(1), 2);
    cpu.set_register(2, 0x80000000);
    let _ = cpu.execute_instruction(&Instruction::SRL(1, 2, 3), 4, &mut memory);
    assert_eq!(cpu.get_register(1), 0x40000000);
}

#[test]
fn test_atomics_execute() {
    let mut memory = AddressSpace::new();
    memory.write_word(0x100, 7);
    let mut cpu = Cpu::new();
    cpu.set_register(2, 0x100);
    cpu.set_register(3, 5);

    let _ = cpu.execute_instruction(&Instruction::AMOADDW(1, 2, 3), 4, &mut memory);
    assert_eq!(cpu.get_register(1), 7);
    assert_eq!(memory.read_word(0x100), 12);

    let _ = cpu.execute_instruction(&Instruction::AMOSWAPW(4, 2, 3), 4, &mut memory);
    assert_eq!(cpu.get_register(4), 12);
    assert_eq!(memory.read_word(0x100), 5);

    let _ = cpu.execute_instruction(&Instruction::LRW(5, 2, 0), 4, &mut memory);
    assert_eq!(cpu.get_register(5), 5);

    cpu.set_register(6, 99);
    let _ = cpu.execute_instruction(&Instruction::SCW(7, 2, 6), 4, &mut memory);
    assert_eq!(cpu.get_register(7), 0);
    assert_eq!(memory.read_word(0x100), 99);

    cpu.set_register(3, -1i32 as u32);
    let _ = cpu.execute_instruction(&Instruction::AMOMAXW(8, 2, 3), 4, &mut memory);
    assert_eq!(cpu.get_register(8), 99);
    assert_eq!(memory.read_word(0x100), 99);
    let _ = cpu.execute_instruction(&Instruction::AMOMAXUW(9, 2, 3), 4, &mut memory);
    assert_eq!(memory.read_word(0x100), 0xFFFF_FFFF);
}

#[test]
fn test_amoswap_aliased_registers() {
    // With rd == rs2, the stored word is still the register's
    // pre-instruction value; the old memory word lands in the register.
    let mut memory = AddressSpace::new();
    memory.write_word(0x100, 7);
    let mut cpu = Cpu::new();
    cpu.set_register(2, 0x100);
    cpu.set_register(1, 5);

    let _ = cpu.execute_instruction(&Instruction::AMOSWAPW(1, 2, 1), 4, &mut memory);
    assert_eq!(memory.read_word(0x100), 5);
    assert_eq!(cpu.get_register(1), 7);
}

#[test]
fn test_default_is_fresh() {
    let mut cpu = Cpu::default();
    for i in 0..32usize {
        assert_eq!(cpu.get_register(i), 0);
    }
    assert_eq!(cpu.get_pc(), 0);
    assert_eq!(cpu.get_cycle_counter(), 0);
    // MRET returns through the saved PC, which starts at zero.
    let mut memory = AddressSpace::new();
    let _ = cpu.execute_instruction(&Instruction::MRET, 4, &mut memory);
    assert_eq!(cpu.get_pc(), 0u32.wrapping_sub(4));
}

#[test]
fn test_interrupt_redirects_and_mret_returns() {
    // A pending interrupt flag redirects the next round to the vector;
    // MRET at the handler returns through the saved PC.
    let mut memory = AddressSpace::new();
    // Main program: ADDI x1, x0, 10 at 0, EBREAK at 4.
    memory.write_word(0, 0x00A00093);
    memory.write_word(4, 0x00100073);
    // Handler at 0x24: MRET.
    memory.write_word(0x24, 0x30200073);
    memory.interrupt_flags = 1;

    let mut cpu = Cpu::new();
    let event = cpu.run(&mut memory);
    assert!(matches!(event, Some(CpuEvent::Halted)));
    // MRET landed back at the saved PC (0), then the program ran to the
    // EBREAK at 4.
    assert_eq!(cpu.get_register(1), 10);
    assert_eq!(cpu.get_cycle_counter(), 3);
    assert_eq!(memory.interrupt_flags, 0);

    // The stepwise host-facing redirect does the same stash.
    let mut cpu = Cpu::new();
    cpu.set_pc(0x40);
    cpu.interrupt(0x24);
    assert_eq!(cpu.get_pc(), 0x24);
    let mut memory = AddressSpace::new();
    let _ = cpu.execute_instruction(&Instruction::MRET, 4, &mut memory);
    assert_eq!(cpu.get_pc(), 0x40 - 4);
}

#[test]
fn test_mret_restores_saved_pc() {
    let mut memory = AddressSpace::new();
    let mut cpu = Cpu::new();
    // With nothing saved, MRET lands at the subtracted size.
    let _ = cpu.execute_instruction(&Instruction::MRET, 4, &mut memory);
    assert_eq!(cpu.get_pc(), 0u32.wrapping_sub(4));
}

/// A minimal 32-bit little-endian ELF image with one program header.
fn minimal_elf(machine: u16, p_type: u32, vaddr: u32, payload: &[u8]) -> Vec<u8> {
    let mut image = vec![
        0x7F, b'E', b'L', b'F', 1, 1, 1, 0, 0, 0, 0, 0, 0, 0, 0, 0,
    ];
    let half = |v: u16| [(v & 0xff) as u8, (v >> 8) as u8];
    let word = |v: u32| [
        (v & 0xff) as u8,
        ((v >> 8) & 0xff) as u8,
        ((v >> 16) & 0xff) as u8,
        ((v >> 24) & 0xff) as u8,
    ];
    image.extend_from_slice(&half(2)); // e_type: EXEC
    image.extend_from_slice(&half(machine));
    image.extend_from_slice(&word(1)); // e_version
    image.extend_from_slice(&word(0)); // e_entry
    image.extend_from_slice(&word(52)); // e_phoff
    image.extend_from_slice(&word(0)); // e_shoff
    image.extend_from_slice(&word(0)); // e_flags
    image.extend_from_slice(&half(52)); // e_ehsize
    image.extend_from_slice(&half(32)); // e_phentsize
    image.extend_from_slice(&half(1)); // e_phnum
    image.extend_from_slice(&half(0)); // e_shentsize
    image.extend_from_slice(&half(0)); // e_shnum
    image.extend_from_slice(&half(0)); // e_shstrndx

    image.extend_from_slice(&word(p_type));
    image.extend_from_slice(&word(84)); // p_offset
    image.extend_from_slice(&word(vaddr));
    image.extend_from_slice(&word(vaddr)); // p_paddr
    image.extend_from_slice(&word(payload.len() as u32)); // p_filesz
    image.extend_from_slice(&word(payload.len() as u32)); // p_memsz
    image.extend_from_slice(&word(5)); // p_flags: R+X
    image.extend_from_slice(&word(4)); // p_align
    image.extend_from_slice(payload);
    image
}

#[test]
fn test_load_program() {
    let mut memory = AddressSpace::new();
    let image = minimal_elf(243, 1, 0x1000, &[0xDE, 0xAD, 0xBE, 0xEF]);
    let result = load_program(&image, &mut memory);
    assert!(result.is_ok());
    assert_eq!(memory.read_byte(0x1000), 0xDE);
    assert_eq!(memory.read_byte(0x1001), 0xAD);
    assert_eq!(memory.read_byte(0x1002), 0xBE);
    assert_eq!(memory.read_byte(0x1003), 0xEF);
}

#[test]
fn test_load_program_wrong_architecture() {
    let mut memory = AddressSpace::new();
    let image = minimal_elf(62, 1, 0x1000, &[0xDE, 0xAD]);
    let result = load_program(&image, &mut memory);
    assert!(matches!(result, Err(EmulatorError::ElfFormatError(_))));
}

#[test]
fn test_load_program_not_elf() {
    let mut memory = AddressSpace::new();
    let result = load_program(&vec![1, 2, 3, 4], &mut memory);
    assert!(matches!(result, Err(EmulatorError::ElfFormatError(_))));
}

#[test]
fn test_load_program_segment_outside_ram() {
    let mut memory = AddressSpace::new();
    let image = minimal_elf(243, 1, 0xFFFF_FFF0, &[1, 2, 3, 4, 5, 6, 7, 8, 9, 10, 11, 12, 13, 14, 15, 16, 17]);
    let result = load_program(&image, &mut memory);
    assert!(matches!(result, Err(EmulatorError::ElfFormatError(_))));
}

#[test]
fn test_load_program_skips_non_loadable() {
    let mut memory = AddressSpace::new();
    // A NOTE segment contributes nothing.
    let image = minimal_elf(243, 4, 0x1000, &[0xDE, 0xAD, 0xBE, 0xEF]);
    let result = load_program(&image, &mut memory);
    assert!(result.is_ok());
    assert_eq!(memory.read_byte(0x1000), 0);
}

#[test]
fn test_load_and_run() {
    // ADDI x1, x0, 10; ADDI x2, x0, 20; ADD x3, x1, x2; EBREAK
    let program: [u32; 4] = [0x00A00093, 0x01400113, 0x002081B3, 0x00100073];
    let mut payload: Vec<u8> = Vec::new();
    for word in program {
        payload.extend_from_slice(&word.to_le_bytes());
    }
    let image = minimal_elf(243, 1, 0, &payload);

    let mut memory = AddressSpace::new();
    assert!(load_program(&image, &mut memory).is_ok());
    let mut cpu = Cpu::new();
    let event = cpu.run(&mut memory);
    assert!(matches!(event, Some(CpuEvent::Halted)));
    assert_eq!(cpu.get_register(3), 30);
}
