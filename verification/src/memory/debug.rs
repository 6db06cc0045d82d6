//! The console ("debug") device: a 1 MiB buffer whose lowest address
//! doubles as the console output port.  Every byte written there is
//! recorded in the device's output stream and emitted to the host's
//! standard output.

use vstd::prelude::*;
use super::addressspace::{Address, DeviceView, MemoryDevice};

verus! {

pub const DEBUG_BYTES: u32 = 1024 * 1024;

/// Relies on `std::io::Write::write_all` on the host's standard
/// output: emits exactly the given byte.
#[verifier::external_body]
pub(crate) fn host_emit_byte(byte: u8) {
    let _ = std::io::Write::write_all(&mut std::io::stdout(), &[byte]);
}

/// Relies on `std::io::Write::flush` on the host's standard output.
#[verifier::external_body]
pub(crate) fn host_flush() {
    let _ = std::io::Write::flush(&mut std::io::stdout());
}

pub struct Debug {
    pub offset: Address,
    pub memory: Vec<u8>,
    pub output: Vec<u8>,
}

impl Debug {
    pub fn new(offset: Address) -> (r: Debug)
        requires
            offset % 0x10_0000 == 0,
        ensures
            r.inv(),
            r@.base == offset,
            r@.bytes.len() == DEBUG_BYTES,
            forall|i: int| 0 <= i < r@.bytes.len() ==> r@.bytes[i] == 0,
            r@.out == Seq::<u8>::empty(),
    {
        Debug { offset, memory: vec![0u8; DEBUG_BYTES as usize], output: Vec::new() }
    }

    /// After a write, a byte that landed on the console port (relative
    /// address zero) is recorded and emitted.
    fn output_hook(&mut self, address: Address)
        requires
            old(self).inv(),
            old(self).offset <= address,
        ensures
            final(self).inv(),
            final(self).offset == old(self).offset,
            final(self).memory@ == old(self).memory@,
            final(self).output@ == if address == old(self).offset {
                old(self).output@.push(old(self).memory@[0])
            } else {
                old(self).output@
            },
    {
        let relative_address = address - self.offset;
        if relative_address == 0 {
            let byte = self.memory[0];
            self.output.push(byte);
            host_emit_byte(byte);
            host_flush();
        }
    }
}

impl View for Debug {
    type V = DeviceView;

    open spec fn view(&self) -> DeviceView {
        DeviceView { base: self.offset, bytes: self.memory@, out: self.output@ }
    }
}

impl MemoryDevice for Debug {
    open spec fn inv(&self) -> bool {
        self.memory@.len() == DEBUG_BYTES
    }

    open spec fn can_read(&self, address: Address, width: nat) -> bool {
        self.offset <= address && address - self.offset + width <= self.memory@.len()
    }

    open spec fn can_write(&self, address: Address, width: nat) -> bool {
        self.can_read(address, width)
    }

    open spec fn out_after(&self, address: Address, low: u8) -> Seq<u8> {
        if address == self.offset {
            self.output@.push(low)
        } else {
            self.output@
        }
    }

    open spec fn pending_interrupt(&self) -> Option<Address> {
        None
    }

    proof fn access_in_bounds(&self, address: Address, width: nat) {
    }

    fn read_byte(&self, address: Address) -> (r: u8) {
        let index = (address - self.offset) as usize;
        self.memory[index]
    }

    fn read_halfword(&self, address: Address) -> (r: u16) {
        let index = (address - self.offset) as usize;
        (self.memory[index] as u16) | ((self.memory[index + 1] as u16) << 8)
    }

    fn read_word(&self, address: Address) -> (r: u32) {
        let index = (address - self.offset) as usize;
        (self.memory[index] as u32) | ((self.memory[index + 1] as u32) << 8) | ((self.memory[index
            + 2] as u32) << 16) | ((self.memory[index + 3] as u32) << 24)
    }

    fn write_byte(&mut self, address: Address, val: u8) {
        let index = (address - self.offset) as usize;
        self.memory[index] = val;
        self.output_hook(address);
    }

    fn write_halfword(&mut self, address: Address, val: u16) {
        let index = (address - self.offset) as usize;
        self.memory[index] = (val & 0xff) as u8;
        self.memory[index + 1] = ((val >> 8) & 0xff) as u8;
        self.output_hook(address);
    }

    fn write_word(&mut self, address: Address, val: u32) {
        let index = (address - self.offset) as usize;
        self.memory[index] = (val & 0xff) as u8;
        self.memory[index + 1] = ((val >> 8) & 0xff) as u8;
        self.memory[index + 2] = ((val >> 16) & 0xff) as u8;
        self.memory[index + 3] = ((val >> 24) & 0xff) as u8;
        self.output_hook(address);
    }

    fn offset(&self) -> (r: Address) {
        self.offset
    }

    fn check_for_interrupt(&mut self) -> (r: Option<Address>) {
        None
    }
}

} // verus!
