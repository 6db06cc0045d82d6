use riscv_emu::interrupt::InterruptController;
use riscv_emu::memory::addressspace::{AddressSpace, MemoryDevice};
use riscv_emu::memory::ram::Ram;
use riscv_emu::memory::video::Video;

#[test]
fn ram_test_byte_access() {
    let mut mem = Ram::new(0);

    mem.write_byte(0, 0xCA);
    assert_eq!(0xCA, mem.read_byte(0))
}

#[test]
fn ram_test_halfword_access() {
    for i in 0..4 {
        let mut mem = Ram::new(0);

        mem.write_halfword(0 + i, 0xCAFE);
        assert_eq!(0xCAFE, mem.read_halfword(0 + i))
    }
}

#[test]
fn ram_test_word_access() {
    for i in 0..4 {
        let mut mem = Ram::new(0);

        mem.write_word(0 + i, 0xCAFEBABE);
        assert_eq!(0xCAFEBABE, mem.read_word(0 + i))
    }
}

#[test]
fn test_debug_device_output() {
    let mut debug = riscv_emu::memory::debug::Debug::new(0x2000_0000);
    debug.write_byte(0x2000_0000, b'A');
    debug.write_byte(0x2000_0010, b'x');
    debug.write_byte(0x2000_0000, b'B');
    assert_eq!(debug.output, vec![b'A', b'B']);
    assert_eq!(debug.read_byte(0x2000_0010), b'x');
}

#[test]
fn test_video_device_framebuffer() {
    let mut video = Video::new(0x4000_0000);
    video.write_word(0x4000_0000, 0x11223344);
    assert_eq!(video.framebuffer[0], 0x44);
    assert_eq!(video.framebuffer[1], 0x33);
    assert_eq!(video.framebuffer[2], 0x22);
    assert_eq!(video.framebuffer[3], 0x11);
    // The key-state block reads back as a word.
    video.keybuffer[4] = 0x2A;
    assert_eq!(video.read_word(0x4000_0000 + 2 * 1024 * 1024 + 4), 0x2A);
}

#[test]
fn test_router_ranges() {
    let mut memory = AddressSpace::new();
    assert!(memory.is_readable(0, 4));
    assert!(memory.is_readable(0x07FF_FFFC, 4));
    assert!(!memory.is_readable(0x07FF_FFFD, 4));
    assert!(memory.is_readable(0x2000_0000, 4));
    assert!(!memory.is_readable(0x1000_0000, 1));
    assert!(!memory.is_readable(0x4000_0000, 4));
    assert!(memory.is_writable(0x4000_0000, 4));
    assert!(memory.is_readable(0x4020_0000, 4));
    assert!(!memory.is_writable(0x4020_0000, 4));

    memory.write_word(0x2000_0100, 0xCAFEBABE);
    assert_eq!(memory.read_word(0x2000_0100), 0xCAFEBABE);
    // A write to the console port lands in the output stream.
    memory.write_byte(0x2000_0000, b'A');
    assert_eq!(memory.debug.output, vec![b'A']);
}

#[test]
fn test_interrupt_flags() {
    let mut memory = AddressSpace::new();
    assert_eq!(memory.check_for_interrupt(), None);
    // The lowest asserted bit clears itself and redirects to the vector.
    memory.interrupt_flags = 0b110;
    assert_eq!(memory.check_for_interrupt(), Some(0x24));
    assert_eq!(memory.interrupt_flags, 0b100);
    assert_eq!(memory.check_for_interrupt(), Some(0x24));
    assert_eq!(memory.interrupt_flags, 0);
    assert_eq!(memory.check_for_interrupt(), None);
}

#[test]
fn test_interrupt_controller() {
    let mut memory = AddressSpace::new();
    let mut controller = InterruptController::new();
    controller.set_interrupt_table(0x24);
    assert_eq!(controller.check_for_interrupt(&mut memory), None);
    assert_eq!(controller.check_for_interrupt(&mut memory), None);
}
