//! The RAM device: a 128 MiB zero-initialised backing store with plain
//! byte, halfword and word access and no interrupts.

use vstd::prelude::*;
use super::addressspace::{Address, DeviceView, MemoryDevice};

verus! {

/// Size of the RAM backing store in bytes.
pub const RAM_BYTES: u32 = 1024 * 1024 * 128;

pub struct Ram {
    pub memory: Vec<u8>,
    pub offset: Address,
}

impl Ram {
    pub fn new(offset: Address) -> (r: Ram)
        ensures
            r.inv(),
            r@.base == offset,
            r@.bytes.len() == RAM_BYTES,
            forall|i: int| 0 <= i < r@.bytes.len() ==> r@.bytes[i] == 0,
            r@.out == Seq::<u8>::empty(),
    {
        Ram { memory: vec![0u8; RAM_BYTES as usize], offset }
    }
}

impl View for Ram {
    type V = DeviceView;

    open spec fn view(&self) -> DeviceView {
        DeviceView { base: self.offset, bytes: self.memory@, out: Seq::empty() }
    }
}

impl MemoryDevice for Ram {
    open spec fn inv(&self) -> bool {
        self.memory@.len() == RAM_BYTES
    }

    open spec fn can_read(&self, address: Address, width: nat) -> bool {
        self.offset <= address && address - self.offset + width <= self.memory@.len()
    }

    open spec fn can_write(&self, address: Address, width: nat) -> bool {
        self.can_read(address, width)
    }

    open spec fn out_after(&self, address: Address, low: u8) -> Seq<u8> {
        Seq::empty()
    }

    open spec fn pending_interrupt(&self) -> Option<Address> {
        None
    }

    proof fn access_in_bounds(&self, address: Address, width: nat) {
    }

    fn read_byte(&self, address: Address) -> (r: u8) {
        self.memory[(address - self.offset) as usize]
    }

    fn read_halfword(&self, address: Address) -> (r: u16) {
        let index = (address - self.offset) as usize;
        (self.memory[index] as u16) | ((self.memory[index + 1] as u16) << 8)
    }

    fn read_word(&self, address: Address) -> (r: u32) {
        let index = (address - self.offset) as usize;
        (self.memory[index] as u32) | ((self.memory[index + 1] as u32) << 8) | ((self.memory[index
            + 2] as u32) << 16) | ((self.memory[index + 3] as u32) << 24)
    }

    fn write_byte(&mut self, address: Address, val: u8) {
        let index = (address - self.offset) as usize;
        self.memory[index] = val;
    }

    fn write_halfword(&mut self, address: Address, val: u16) {
        let index = (address - self.offset) as usize;
        self.memory[index] = (val & 0xff) as u8;
        self.memory[index + 1] = ((val >> 8) & 0xff) as u8;
    }

    fn write_word(&mut self, address: Address, val: u32) {
        let index = (address - self.offset) as usize;
        self.memory[index] = (val & 0xff) as u8;
        self.memory[index + 1] = ((val >> 8) & 0xff) as u8;
        self.memory[index + 2] = ((val >> 16) & 0xff) as u8;
        self.memory[index + 3] = ((val >> 24) & 0xff) as u8;
    }

    fn offset(&self) -> (r: Address) {
        self.offset
    }

    fn check_for_interrupt(&mut self) -> (r: Option<Address>) {
        None
    }
}

} // verus!
