use riscv_emu::util::{
    read_u16_from_byteslice, read_u32_from_byteslice, sign_extend, write_u16_to_byteslice,
    write_u32_to_byteslice,
};

#[test]
fn test_read_u16_from_byteslice() {
    let buffer: [u8; 2] = [0xAA, 0xBB];
    let result = read_u16_from_byteslice(&buffer);
    assert_eq!(0xBBAA, result);
}

#[test]
fn test_read_u32_from_byteslice() {
    let buffer: [u8; 4] = [0xAA, 0xBB, 0xCC, 0xDD];
    let result = read_u32_from_byteslice(&buffer);
    assert_eq!(0xDDCCBBAA, result);
}

#[test]
fn test_write_u16_to_byteslice() {
    let mut buffer = [0u8; 2];
    write_u16_to_byteslice(&mut buffer, 0xBBAA);
    assert_eq!([0xAA, 0xBB], buffer);
}

#[test]
fn test_write_u32_to_byteslice() {
    let mut buffer = [0u8; 4];
    write_u32_to_byteslice(&mut buffer, 0xDDCCBBAA);
    assert_eq!([0xAA, 0xBB, 0xCC, 0xDD], buffer);
}

#[test]
fn test_sign_extend() {
    assert_eq!(sign_extend(0b100000000000, 12), -2048)
}

#[test]
fn test_sign_extend_widths() {
    assert_eq!(sign_extend(0xFF, 8), -1);
    assert_eq!(sign_extend(0x7F, 8), 127);
    assert_eq!(sign_extend(0xFFFF, 16), -1);
    assert_eq!(sign_extend(0x8000, 16), -32768);
    assert_eq!(sign_extend(0x7FFFF, 20), 0x7FFFF);
    assert_eq!(sign_extend(0x80000, 20), -0x80000);
    assert_eq!(sign_extend(-5, 32), -5);
}
