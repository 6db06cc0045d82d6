use riscv_emu::addressspace::{AddressSpace, MemoryDevice, CONSOLE_ADDRESS};
use riscv_emu::instruction::Instruction;
use riscv_emu::ram::Ram;

#[test]
fn addressspace_test_byte_access() {
    let mut mem = AddressSpace::new();

    mem.write_byte(0, 0xCA);
    assert_eq!(0xCA, mem.read_byte(0))
}

#[test]
fn addressspace_test_halfword_access() {
    for i in 0..4 {
        let mut mem = AddressSpace::new();

        mem.write_halfword(0 + i, 0xCAFE);
        assert_eq!(0xCAFE, mem.read_halfword(0 + i))
    }
}

#[test]
fn addressspace_test_word_access() {
    for i in 0..4 {
        let mut mem = AddressSpace::new();

        mem.write_word(0 + i, 0xCAFEBABE);
        assert_eq!(0xCAFEBABE, mem.read_word(0 + i))
    }
}

#[test]
fn test_byte_access() {
    let mut mem = Ram::new();

    mem.write_byte(0, 0xCA);
    assert_eq!(0xCA, mem.read_byte(0))
}

#[test]
fn test_halfword_access() {
    for i in 0..4 {
        let mut mem = Ram::new();

        mem.write_halfword(0 + i, 0xCAFE);
        assert_eq!(0xCAFE, mem.read_halfword(0 + i))
    }
}

#[test]
fn test_word_access() {
    for i in 0..4 {
        let mut mem = Ram::new();

        mem.write_word(0 + i, 0xCAFEBABE);
        assert_eq!(0xCAFEBABE, mem.read_word(0 + i))
    }
}

#[test]
fn test_flat_console_address() {
    let mut mem = AddressSpace::new();
    mem.write_byte(CONSOLE_ADDRESS, b'Z');
    assert_eq!(mem.output, vec![b'Z']);
    // The console byte is swallowed, not stored.
    assert_eq!(mem.read_byte(0), 0);
}

#[test]
fn test_instruction_buffer() {
    let mut mem = AddressSpace::new();
    // ADDI x1, x0, 10
    mem.write_word(0, 0x00A00093);
    mem.init_instruction_buffer(4);
    assert_eq!(*mem.read_instruction(0), Instruction::ADDI(1, 0, 10));
}
