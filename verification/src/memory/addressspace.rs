//! The uniform device interface and the address-space router.
//!
//! The router owns one RAM, one console device and one video device,
//! dispatches each access by address range, and aggregates interrupts:
//! polling clears the lowest asserted flag bit and redirects to the
//! single interrupt vector.

use vstd::prelude::*;
use crate::util::{le16, le32, lo16, hi16, u32_byte};
use super::ram::Ram;
use super::video::Video;

verus! {

pub type Address = u32;

/// What a memory device looks like from the outside: its base address,
/// the bytes it stores (indexed device-relative), and the stream of
/// bytes it has emitted to the host console.
pub struct DeviceView {
    pub base: Address,
    pub bytes: Seq<u8>,
    pub out: Seq<u8>,
}

/// The uniform capability set of a memory device: byte, halfword and
/// word reads and writes (little-endian), a base offset, and a poll for
/// a pending interrupt.
pub trait MemoryDevice: View<V = DeviceView> + Sized {
    /// The device's internal invariant.
    spec fn inv(&self) -> bool;

    /// Which `width`-byte reads the device accepts.
    spec fn can_read(&self, address: Address, width: nat) -> bool;

    /// Which `width`-byte writes the device accepts.
    spec fn can_write(&self, address: Address, width: nat) -> bool;

    /// The console stream after a write at `address` whose least
    /// significant byte is `low`.
    spec fn out_after(&self, address: Address, low: u8) -> Seq<u8>;

    /// The device's answer to an interrupt poll.
    spec fn pending_interrupt(&self) -> Option<Address>;

    /// Accepted accesses stay inside the stored bytes.
    proof fn access_in_bounds(&self, address: Address, width: nat)
        requires
            self.inv(),
            self.can_read(address, width) || self.can_write(address, width),
        ensures
            self@.base <= address,
            address - self@.base + width <= self@.bytes.len(),
    ;

    fn read_byte(&self, address: Address) -> (r: u8)
        requires
            self.inv(),
            self.can_read(address, 1),
        ensures
            r == self@.bytes[address - self@.base],
    ;

    fn read_halfword(&self, address: Address) -> (r: u16)
        requires
            self.inv(),
            self.can_read(address, 2),
        ensures
            r == le16(self@.bytes[address - self@.base], self@.bytes[address - self@.base + 1]),
    ;

    fn read_word(&self, address: Address) -> (r: u32)
        requires
            self.inv(),
            self.can_read(address, 4),
        ensures
            r == le32(
                self@.bytes[address - self@.base],
                self@.bytes[address - self@.base + 1],
                self@.bytes[address - self@.base + 2],
                self@.bytes[address - self@.base + 3],
            ),
    ;

    fn write_byte(&mut self, address: Address, val: u8)
        requires
            old(self).inv(),
            old(self).can_write(address, 1),
        ensures
            final(self).inv(),
            final(self)@.base == old(self)@.base,
            final(self)@.bytes == old(self)@.bytes.update(address - old(self)@.base, val),
            final(self)@.out == old(self).out_after(address, val),
            forall|a: Address, w: nat| #[trigger] final(self).can_read(a, w) == old(
                self,
            ).can_read(a, w),
            forall|a: Address, w: nat| #[trigger] final(self).can_write(a, w) == old(
                self,
            ).can_write(a, w),
    ;

    fn write_halfword(&mut self, address: Address, val: u16)
        requires
            old(self).inv(),
            old(self).can_write(address, 2),
        ensures
            final(self).inv(),
            final(self)@.base == old(self)@.base,
            final(self)@.bytes == old(self)@.bytes.update(
                address - old(self)@.base,
                lo16(val),
            ).update(address - old(self)@.base + 1, hi16(val)),
            final(self)@.out == old(self).out_after(address, lo16(val)),
            forall|a: Address, w: nat| #[trigger] final(self).can_read(a, w) == old(
                self,
            ).can_read(a, w),
            forall|a: Address, w: nat| #[trigger] final(self).can_write(a, w) == old(
                self,
            ).can_write(a, w),
    ;

    fn write_word(&mut self, address: Address, val: u32)
        requires
            old(self).inv(),
            old(self).can_write(address, 4),
        ensures
            final(self).inv(),
            final(self)@.base == old(self)@.base,
            final(self)@.bytes == old(self)@.bytes.update(
                address - old(self)@.base,
                u32_byte(val, 0),
            ).update(address - old(self)@.base + 1, u32_byte(val, 1)).update(
                address - old(self)@.base + 2,
                u32_byte(val, 2),
            ).update(address - old(self)@.base + 3, u32_byte(val, 3)),
            final(self)@.out == old(self).out_after(address, u32_byte(val, 0)),
            forall|a: Address, w: nat| #[trigger] final(self).can_read(a, w) == old(
                self,
            ).can_read(a, w),
            forall|a: Address, w: nat| #[trigger] final(self).can_write(a, w) == old(
                self,
            ).can_write(a, w),
    ;

    /// The absolute address at which the device is mapped.
    fn offset(&self) -> (r: Address)
        ensures
            r == self@.base,
    ;

    /// Translate an absolute address to a device-relative one.
    fn get_relative_address(&self, address: Address) -> (r: Address)
        requires
            self@.base <= address,
        ensures
            r == address - self@.base,
    {
        address - self.offset()
    }

    fn check_for_interrupt(&mut self) -> (r: Option<Address>)
        ensures
            *final(self) == *old(self),
            r == old(self).pending_interrupt(),
    ;
}

pub const MEGABYTE: Address = 1024 * 1024;

pub const RAM_START: Address = 0;

pub const RAM_END: Address = MEGABYTE * 128 - 1;

pub const DEBUG_START: Address = MEGABYTE * 512;

pub const DEBUG_END: Address = MEGABYTE * 513 - 1;

pub const VIDEO_START: Address = MEGABYTE * 1024;

pub const VIDEO_END: Address = MEGABYTE * 1027 - 1;

/// The single interrupt vector: where control is redirected when a
/// pending interrupt is observed.
pub const INTERRUPT_VECTOR: Address = 0x24;

/// The routed address space: RAM at the bottom, the console device at
/// `DEBUG_START`, the video device at `VIDEO_START`, plus the
/// aggregated interrupt-flag word.
pub struct AddressSpace {
    pub ram: Ram,
    pub debug: super::debug::Debug,
    pub video: Video,
    pub interrupt_flags: u32,
}

impl AddressSpace {
    pub open spec fn inv(&self) -> bool {
        &&& self.ram.inv()
        &&& self.ram@.base == RAM_START
        &&& self.debug.inv()
        &&& self.debug@.base == DEBUG_START
        &&& self.video.inv()
        &&& self.video@.base == VIDEO_START
    }

    pub open spec fn ram_bytes(&self) -> Seq<u8> {
        self.ram@.bytes
    }

    pub open spec fn dbg_bytes(&self) -> Seq<u8> {
        self.debug@.bytes
    }

    pub open spec fn vid_bytes(&self) -> Seq<u8> {
        self.video@.bytes
    }

    /// Every byte the console device has emitted, in order.
    pub open spec fn console_out(&self) -> Seq<u8> {
        self.debug@.out
    }

    /// Which `width`-byte reads the address space accepts: those the
    /// routed device accepts.
    pub open spec fn readable(&self, address: Address, width: nat) -> bool {
        if address <= RAM_END {
            self.ram.can_read(address, width)
        } else if DEBUG_START <= address <= DEBUG_END {
            self.debug.can_read(address, width)
        } else if VIDEO_START <= address <= VIDEO_END {
            self.video.can_read(address, width)
        } else {
            false
        }
    }

    pub open spec fn writable(&self, address: Address, width: nat) -> bool {
        if address <= RAM_END {
            self.ram.can_write(address, width)
        } else if DEBUG_START <= address <= DEBUG_END {
            self.debug.can_write(address, width)
        } else if VIDEO_START <= address <= VIDEO_END {
            self.video.can_write(address, width)
        } else {
            false
        }
    }

    /// The byte stored at an absolute address, routed to the owning
    /// device.
    pub open spec fn byte_at(&self, address: Address) -> u8 {
        if address <= RAM_END {
            self.ram_bytes()[address as int]
        } else if DEBUG_START <= address <= DEBUG_END {
            self.dbg_bytes()[address - DEBUG_START]
        } else {
            self.vid_bytes()[address - VIDEO_START]
        }
    }

    /// The little-endian halfword at an absolute address.
    pub open spec fn half_at(&self, address: Address) -> u16 {
        le16(self.byte_at(address), self.byte_at((address + 1) as Address))
    }

    /// The little-endian word at an absolute address.
    pub open spec fn word_at(&self, address: Address) -> u32 {
        le32(
            self.byte_at(address),
            self.byte_at((address + 1) as Address),
            self.byte_at((address + 2) as Address),
            self.byte_at((address + 3) as Address),
        )
    }

    pub fn new() -> (r: AddressSpace)
        ensures
            r.inv(),
            r.ram_bytes().len() == RAM_END + 1,
            r.dbg_bytes().len() == MEGABYTE,
            forall|i: int| 0 <= i < r.ram_bytes().len() ==> r.ram_bytes()[i] == 0,
            forall|i: int| 0 <= i < r.dbg_bytes().len() ==> r.dbg_bytes()[i] == 0,
            forall|i: int| 0 <= i < r.vid_bytes().len() ==> r.vid_bytes()[i] == 0,
            r.console_out() == Seq::<u8>::empty(),
            r.interrupt_flags == 0,
    {
        let debug_address: Address = MEGABYTE * 512;
        let video_address: Address = MEGABYTE * 1024;

        AddressSpace {
            ram: Ram::new(0),
            debug: super::debug::Debug::new(debug_address),
            video: Video::new(video_address),
            interrupt_flags: 0,
        }
    }

    /// Whether a `width`-byte read at `address` is mapped; the
    /// executable form of `readable`.
    pub fn is_readable(&self, address: Address, width: u32) -> (r: bool)
        requires
            self.inv(),
        ensures
            r == self.readable(address, width as nat),
    {
        if address <= RAM_END {
            (address as u64) + (width as u64) <= (RAM_END as u64) + 1
        } else if DEBUG_START <= address && address <= DEBUG_END {
            (address as u64) + (width as u64) <= (DEBUG_START as u64) + (MEGABYTE as u64)
        } else if VIDEO_START <= address && address <= VIDEO_END {
            self.video.word_readable(address, width)
        } else {
            false
        }
    }

    /// Whether a `width`-byte write at `address` is mapped; the
    /// executable form of `writable`.
    pub fn is_writable(&self, address: Address, width: u32) -> (r: bool)
        requires
            self.inv(),
        ensures
            r == self.writable(address, width as nat),
    {
        if address <= RAM_END {
            (address as u64) + (width as u64) <= (RAM_END as u64) + 1
        } else if DEBUG_START <= address && address <= DEBUG_END {
            (address as u64) + (width as u64) <= (DEBUG_START as u64) + (MEGABYTE as u64)
        } else if VIDEO_START <= address && address <= VIDEO_END {
            self.video.framebuffer_writable(address, width)
        } else {
            false
        }
    }

    pub fn read_byte(&self, address: Address) -> (r: u8)
        requires
            self.inv(),
            self.readable(address, 1),
        ensures
            r == self.byte_at(address),
    {
        if address <= RAM_END {
            self.ram.read_byte(address)
        } else if DEBUG_START <= address && address <= DEBUG_END {
            self.debug.read_byte(address)
        } else if VIDEO_START <= address && address <= VIDEO_END {
            self.video.read_byte(address)
        } else {
            proof {
                assert(false);
            }
            0
        }
    }

    pub fn read_halfword(&self, address: Address) -> (r: u16)
        requires
            self.inv(),
            self.readable(address, 2),
        ensures
            r == self.half_at(address),
    {
        if address <= RAM_END {
            proof {
                self.ram.access_in_bounds(address, 2);
            }
            self.ram.read_halfword(address)
        } else if DEBUG_START <= address && address <= DEBUG_END {
            proof {
                self.debug.access_in_bounds(address, 2);
            }
            self.debug.read_halfword(address)
        } else if VIDEO_START <= address && address <= VIDEO_END {
            proof {
                self.video.access_in_bounds(address, 2);
            }
            self.video.read_halfword(address)
        } else {
            proof {
                assert(false);
            }
            0
        }
    }

    pub fn read_word(&self, address: Address) -> (r: u32)
        requires
            self.inv(),
            self.readable(address, 4),
        ensures
            r == self.word_at(address),
    {
        if address <= RAM_END {
            proof {
                self.ram.access_in_bounds(address, 4);
            }
            self.ram.read_word(address)
        } else if DEBUG_START <= address && address <= DEBUG_END {
            proof {
                self.debug.access_in_bounds(address, 4);
            }
            self.debug.read_word(address)
        } else if VIDEO_START <= address && address <= VIDEO_END {
            proof {
                self.video.access_in_bounds(address, 4);
            }
            self.video.read_word(address)
        } else {
            proof {
                assert(false);
            }
            0
        }
    }

    pub fn write_byte(&mut self, address: Address, val: u8)
        requires
            old(self).inv(),
            old(self).writable(address, 1),
        ensures
            final(self).inv(),
            wrote_byte(*old(self), *final(self), address, val),
    {
        if address <= RAM_END {
            self.ram.write_byte(address, val);
        } else if DEBUG_START <= address && address <= DEBUG_END {
            self.debug.write_byte(address, val);
        } else if VIDEO_START <= address && address <= VIDEO_END {
            self.video.write_byte(address, val);
        } else {
            proof {
                assert(false);
            }
        }
    }

    pub fn write_halfword(&mut self, address: Address, val: u16)
        requires
            old(self).inv(),
            old(self).writable(address, 2),
        ensures
            final(self).inv(),
            wrote_half(*old(self), *final(self), address, val),
    {
        if address <= RAM_END {
            proof {
                self.ram.access_in_bounds(address, 2);
            }
            self.ram.write_halfword(address, val);
        } else if DEBUG_START <= address && address <= DEBUG_END {
            proof {
                self.debug.access_in_bounds(address, 2);
            }
            self.debug.write_halfword(address, val);
        } else if VIDEO_START <= address && address <= VIDEO_END {
            proof {
                self.video.access_in_bounds(address, 2);
            }
            self.video.write_halfword(address, val);
        } else {
            proof {
                assert(false);
            }
        }
    }

    pub fn write_word(&mut self, address: Address, val: u32)
        requires
            old(self).inv(),
            old(self).writable(address, 4),
        ensures
            final(self).inv(),
            wrote_word(*old(self), *final(self), address, val),
    {
        if address <= RAM_END {
            proof {
                self.ram.access_in_bounds(address, 4);
            }
            self.ram.write_word(address, val);
        } else if DEBUG_START <= address && address <= DEBUG_END {
            proof {
                self.debug.access_in_bounds(address, 4);
            }
            self.debug.write_word(address, val);
        } else if VIDEO_START <= address && address <= VIDEO_END {
            proof {
                self.video.access_in_bounds(address, 4);
            }
            self.video.write_word(address, val);
        } else {
            proof {
                assert(false);
            }
        }
    }

    /// Poll the aggregated interrupt flags.  The lowest asserted bit,
    /// if any, clears itself and control is redirected to the fixed
    /// interrupt vector.
    pub fn check_for_interrupt(&mut self) -> (r: Option<Address>)
        ensures
            same_mem(*old(self), *final(self)),
            final(self).inv() == old(self).inv(),
            old(self).interrupt_flags == 0 ==> r is None && final(self).interrupt_flags == 0,
            old(self).interrupt_flags != 0 ==> r == Some(INTERRUPT_VECTOR)
                && final(self).interrupt_flags == (old(self).interrupt_flags & ((old(
                self,
            ).interrupt_flags - 1) as u32)),
    {
        if self.interrupt_flags != 0 {
            self.interrupt_flags = self.interrupt_flags & (self.interrupt_flags - 1);
            Some(INTERRUPT_VECTOR)
        } else {
            None
        }
    }
}

impl Default for AddressSpace {
    fn default() -> (r: Self)
        ensures
            r.inv(),
    {
        Self::new()
    }
}

/// The memory contents and console stream are the same in both states.
pub open spec fn same_mem(m0: AddressSpace, m1: AddressSpace) -> bool {
    &&& m1.ram_bytes() == m0.ram_bytes()
    &&& m1.dbg_bytes() == m0.dbg_bytes()
    &&& m1.vid_bytes() == m0.vid_bytes()
    &&& m1.console_out() == m0.console_out()
}

/// Memory and console are unchanged, interrupt flags included.
pub open spec fn unchanged_mem(m0: AddressSpace, m1: AddressSpace) -> bool {
    &&& same_mem(m0, m1)
    &&& m1.interrupt_flags == m0.interrupt_flags
}

/// `m1` is `m0` after one routed byte write of `val` at `address`:
/// the owning device's bytes are updated, every other region is
/// untouched, and a write to the console's lowest address appends the
/// byte to the console stream.
pub open spec fn wrote_byte(m0: AddressSpace, m1: AddressSpace, address: Address, val: u8) -> bool {
    &&& if address <= RAM_END {
        &&& m1.ram_bytes() == m0.ram_bytes().update(address as int, val)
        &&& m1.dbg_bytes() == m0.dbg_bytes()
        &&& m1.vid_bytes() == m0.vid_bytes()
    } else if DEBUG_START <= address <= DEBUG_END {
        &&& m1.ram_bytes() == m0.ram_bytes()
        &&& m1.dbg_bytes() == m0.dbg_bytes().update(address - DEBUG_START, val)
        &&& m1.vid_bytes() == m0.vid_bytes()
    } else {
        &&& m1.ram_bytes() == m0.ram_bytes()
        &&& m1.dbg_bytes() == m0.dbg_bytes()
        &&& m1.vid_bytes() == m0.vid_bytes().update(address - VIDEO_START, val)
    }
    &&& m1.console_out() == if address == DEBUG_START {
        m0.console_out().push(val)
    } else {
        m0.console_out()
    }
    &&& m1.interrupt_flags == m0.interrupt_flags
}

/// `m1` is `m0` after one routed little-endian halfword write.
pub open spec fn wrote_half(m0: AddressSpace, m1: AddressSpace, address: Address, val: u16) -> bool {
    &&& if address <= RAM_END {
        &&& m1.ram_bytes() == m0.ram_bytes().update(address as int, lo16(val)).update(
            address + 1,
            hi16(val),
        )
        &&& m1.dbg_bytes() == m0.dbg_bytes()
        &&& m1.vid_bytes() == m0.vid_bytes()
    } else if DEBUG_START <= address <= DEBUG_END {
        &&& m1.ram_bytes() == m0.ram_bytes()
        &&& m1.dbg_bytes() == m0.dbg_bytes().update(address - DEBUG_START, lo16(val)).update(
            address - DEBUG_START + 1,
            hi16(val),
        )
        &&& m1.vid_bytes() == m0.vid_bytes()
    } else {
        &&& m1.ram_bytes() == m0.ram_bytes()
        &&& m1.dbg_bytes() == m0.dbg_bytes()
        &&& m1.vid_bytes() == m0.vid_bytes().update(address - VIDEO_START, lo16(val)).update(
            address - VIDEO_START + 1,
            hi16(val),
        )
    }
    &&& m1.console_out() == if address == DEBUG_START {
        m0.console_out().push(lo16(val))
    } else {
        m0.console_out()
    }
    &&& m1.interrupt_flags == m0.interrupt_flags
}

/// `m1` is `m0` after one routed little-endian word write.
pub open spec fn wrote_word(m0: AddressSpace, m1: AddressSpace, address: Address, val: u32) -> bool {
    &&& if address <= RAM_END {
        &&& m1.ram_bytes() == m0.ram_bytes().update(address as int, u32_byte(val, 0)).update(
            address + 1,
            u32_byte(val, 1),
        ).update(address + 2, u32_byte(val, 2)).update(address + 3, u32_byte(val, 3))
        &&& m1.dbg_bytes() == m0.dbg_bytes()
        &&& m1.vid_bytes() == m0.vid_bytes()
    } else if DEBUG_START <= address <= DEBUG_END {
        &&& m1.ram_bytes() == m0.ram_bytes()
        &&& m1.dbg_bytes() == m0.dbg_bytes().update(address - DEBUG_START, u32_byte(val, 0)).update(
            address - DEBUG_START + 1,
            u32_byte(val, 1),
        ).update(address - DEBUG_START + 2, u32_byte(val, 2)).update(
            address - DEBUG_START + 3,
            u32_byte(val, 3),
        )
        &&& m1.vid_bytes() == m0.vid_bytes()
    } else {
        &&& m1.ram_bytes() == m0.ram_bytes()
        &&& m1.dbg_bytes() == m0.dbg_bytes()
        &&& m1.vid_bytes() == m0.vid_bytes().update(address - VIDEO_START, u32_byte(val, 0)).update(
            address - VIDEO_START + 1,
            u32_byte(val, 1),
        ).update(address - VIDEO_START + 2, u32_byte(val, 2)).update(
            address - VIDEO_START + 3,
            u32_byte(val, 3),
        )
    }
    &&& m1.console_out() == if address == DEBUG_START {
        m0.console_out().push(u32_byte(val, 0))
    } else {
        m0.console_out()
    }
    &&& m1.interrupt_flags == m0.interrupt_flags
}


/// Store/load round-trip for bytes: a byte written at a mapped address
/// is the byte read back there.
pub proof fn lemma_store_load_byte(m0: AddressSpace, m1: AddressSpace, a: Address, v: u8)
    requires
        m0.inv(),
        m0.writable(a, 1),
        wrote_byte(m0, m1, a, v),
    ensures
        m1.byte_at(a) == v,
{
    if a <= RAM_END {
        m0.ram.access_in_bounds(a, 1);
    } else if DEBUG_START <= a <= DEBUG_END {
        m0.debug.access_in_bounds(a, 1);
    } else {
        m0.video.access_in_bounds(a, 1);
    }
}

/// Store/load round-trip for halfwords: a halfword written at a mapped
/// address is the halfword read back there.
pub proof fn lemma_store_load_half(m0: AddressSpace, m1: AddressSpace, a: Address, v: u16)
    requires
        m0.inv(),
        m0.writable(a, 2),
        wrote_half(m0, m1, a, v),
    ensures
        m1.half_at(a) == v,
{
    if a <= RAM_END {
        m0.ram.access_in_bounds(a, 2);
    } else if DEBUG_START <= a <= DEBUG_END {
        m0.debug.access_in_bounds(a, 2);
    } else {
        m0.video.access_in_bounds(a, 2);
    }
    assert(le16(lo16(v), hi16(v)) == v) by (bit_vector);
}

/// Store/load round-trip for words: a word written at a mapped address
/// is the word read back there.
pub proof fn lemma_store_load_word(m0: AddressSpace, m1: AddressSpace, a: Address, v: u32)
    requires
        m0.inv(),
        m0.writable(a, 4),
        wrote_word(m0, m1, a, v),
    ensures
        m1.word_at(a) == v,
{
    if a <= RAM_END {
        m0.ram.access_in_bounds(a, 4);
    } else if DEBUG_START <= a <= DEBUG_END {
        m0.debug.access_in_bounds(a, 4);
    } else {
        m0.video.access_in_bounds(a, 4);
    }
    assert(le32(u32_byte(v, 0), u32_byte(v, 1), u32_byte(v, 2), u32_byte(v, 3)) == v)
        by (bit_vector);
}

} // verus!
