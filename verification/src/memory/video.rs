//! The video/keyboard device: an RGBA8888 framebuffer for an 800x600
//! surface, write-only from the CPU side, and an 8-byte key-state
//! block, readable word-wise.  The host-side renderer that displays the
//! framebuffer and fills the key buffer lives outside the library.

use vstd::prelude::*;
use crate::util::{lo16, hi16, u32_byte};
use super::addressspace::{Address, DeviceView, MemoryDevice};

verus! {

pub const SIZE_X: u32 = 800;

pub const SIZE_Y: u32 = 600;

/// Size of the framebuffer in bytes (four bytes per pixel).
pub const VEC_SIZE: u32 = SIZE_X * SIZE_Y * 4;

/// Device-relative address of the key-state block.
pub const KEYBUFFER_START: u32 = 2 * 1024 * 1024;

pub const KEYBUFFER_END: u32 = KEYBUFFER_START + 7;

pub struct Video {
    pub offset: Address,
    pub framebuffer: Vec<u8>,
    pub keybuffer: Vec<u8>,
}

impl Video {
    pub fn new(offset: Address) -> (r: Video)
        ensures
            r.inv(),
            r@.base == offset,
            r@.bytes.len() == KEYBUFFER_START + 8,
            forall|i: int| 0 <= i < r@.bytes.len() ==> r@.bytes[i] == 0,
            r@.out == Seq::<u8>::empty(),
    {
        let r = Video {
            offset,
            framebuffer: vec![0u8; VEC_SIZE as usize],
            keybuffer: vec![0u8; 8],
        };
        r
    }

    /// Executable form of `can_read`: only whole words of the
    /// key-state block can be read.
    pub fn word_readable(&self, address: Address, width: u32) -> (r: bool)
        ensures
            r == self.can_read(address, width as nat),
    {
        width == 4 && (address as u64) >= (self.offset as u64) + (KEYBUFFER_START as u64) && (
        address as u64) + (width as u64) <= (self.offset as u64) + (KEYBUFFER_START as u64) + 8
    }

    /// Executable form of `can_write`: only the framebuffer is
    /// writable.
    pub fn framebuffer_writable(&self, address: Address, width: u32) -> (r: bool)
        ensures
            r == self.can_write(address, width as nat),
    {
        (address as u64) >= (self.offset as u64) && (address as u64) + (width as u64) <= (
        self.offset as u64) + (VEC_SIZE as u64)
    }
}

impl View for Video {
    type V = DeviceView;

    /// The device bytes: the framebuffer, a hole of zeroes, then the
    /// key-state block at its relative address.
    open spec fn view(&self) -> DeviceView {
        DeviceView {
            base: self.offset,
            bytes: Seq::new(
                (KEYBUFFER_START + 8) as nat,
                |i: int|
                    if i < VEC_SIZE {
                        self.framebuffer@[i]
                    } else if i >= KEYBUFFER_START {
                        self.keybuffer@[i - KEYBUFFER_START]
                    } else {
                        0
                    },
            ),
            out: Seq::empty(),
        }
    }
}

impl MemoryDevice for Video {
    open spec fn inv(&self) -> bool {
        self.framebuffer@.len() == VEC_SIZE && self.keybuffer@.len() == 8
    }

    open spec fn can_read(&self, address: Address, width: nat) -> bool {
        width == 4 && self.offset + KEYBUFFER_START <= address && address + width <= self.offset
            + KEYBUFFER_START + 8
    }

    open spec fn can_write(&self, address: Address, width: nat) -> bool {
        self.offset <= address && address + width <= self.offset + VEC_SIZE
    }

    open spec fn out_after(&self, address: Address, low: u8) -> Seq<u8> {
        Seq::empty()
    }

    open spec fn pending_interrupt(&self) -> Option<Address> {
        None
    }

    proof fn access_in_bounds(&self, address: Address, width: nat) {
    }

    fn read_byte(&self, address: Address) -> (r: u8) {
        proof {
            assert(false);
        }
        0
    }

    fn read_halfword(&self, address: Address) -> (r: u16) {
        proof {
            assert(false);
        }
        0
    }

    fn read_word(&self, address: Address) -> (r: u32) {
        let keybuffer_address = (address - self.offset - KEYBUFFER_START) as usize;
        (self.keybuffer[keybuffer_address] as u32) | ((self.keybuffer[keybuffer_address + 1] as u32)
            << 8) | ((self.keybuffer[keybuffer_address + 2] as u32) << 16) | ((self.keybuffer[
        keybuffer_address + 3] as u32) << 24)
    }

    fn write_byte(&mut self, address: Address, val: u8) {
        let relative_address = (address - self.offset) as usize;
        self.framebuffer[relative_address] = val;
        proof {
            assert(self@.bytes =~= old(self)@.bytes.update(address - old(self)@.base, val));
        }
    }

    fn write_halfword(&mut self, address: Address, val: u16) {
        let relative_address = (address - self.offset) as usize;
        self.framebuffer[relative_address] = (val & 0xff) as u8;
        self.framebuffer[relative_address + 1] = ((val >> 8) & 0xff) as u8;
        proof {
            assert(self@.bytes =~= old(self)@.bytes.update(
                address - old(self)@.base,
                lo16(val),
            ).update(address - old(self)@.base + 1, hi16(val)));
        }
    }

    fn write_word(&mut self, address: Address, val: u32) {
        let relative_address = (address - self.offset) as usize;
        self.framebuffer[relative_address] = (val & 0xff) as u8;
        self.framebuffer[relative_address + 1] = ((val >> 8) & 0xff) as u8;
        self.framebuffer[relative_address + 2] = ((val >> 16) & 0xff) as u8;
        self.framebuffer[relative_address + 3] = ((val >> 24) & 0xff) as u8;
        proof {
            assert(self@.bytes =~= old(self)@.bytes.update(
                address - old(self)@.base,
                u32_byte(val, 0),
            ).update(address - old(self)@.base + 1, u32_byte(val, 1)).update(
                address - old(self)@.base + 2,
                u32_byte(val, 2),
            ).update(address - old(self)@.base + 3, u32_byte(val, 3)));
        }
    }

    fn offset(&self) -> (r: Address) {
        self.offset
    }

    fn check_for_interrupt(&mut self) -> (r: Option<Address>) {
        None
    }
}

} // verus!
