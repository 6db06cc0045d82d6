//! A compact, single-buffer address space: one flat megabyte of memory
//! plus a magic console address whose byte writes go to the host's
//! standard output instead of the store.  It also carries a
//! pre-decoded instruction buffer, one decoded instruction per byte
//! address.

use vstd::prelude::*;
use crate::instruction::{Instruction, decode, wf_instr};
use crate::memory::debug::{host_emit_byte, host_flush};
use crate::util::{le16, le32, lo16, hi16, u32_byte};

verus! {

pub type Address = u32;

/// The byte address whose writes are forwarded to the host console.
pub const CONSOLE_ADDRESS: Address = 0xcafe_babe;

pub const FLAT_MEMORY_BYTES: u32 = 1024 * 1024;

/// Plain byte, halfword and word access to a flat backing store whose
/// console address swallows byte writes and emits them to the host.
pub trait MemoryDevice: Sized {
    /// The stored bytes.
    spec fn contents(&self) -> Seq<u8>;

    /// Every byte emitted to the host console, in order.
    spec fn out_stream(&self) -> Seq<u8>;

    /// Which `width`-byte reads the device accepts.
    spec fn can_read(&self, address: Address, width: nat) -> bool;

    /// Which `width`-byte writes the device accepts.
    spec fn can_write(&self, address: Address, width: nat) -> bool;

    /// Whether a byte write at the address lands in the backing store;
    /// the console address swallows it instead.
    spec fn stores(&self, address: Address) -> bool;

    fn read_byte(&self, address: Address) -> (r: u8)
        requires
            self.can_read(address, 1),
        ensures
            r == self.contents()[address as int],
    ;

    fn read_halfword(&self, address: Address) -> (r: u16)
        requires
            self.can_read(address, 2),
        ensures
            r == le16(self.contents()[address as int], self.contents()[address + 1]),
    ;

    fn read_word(&self, address: Address) -> (r: u32)
        requires
            self.can_read(address, 4),
        ensures
            r == le32(
                self.contents()[address as int],
                self.contents()[address + 1],
                self.contents()[address + 2],
                self.contents()[address + 3],
            ),
    ;

    fn write_byte(&mut self, address: Address, val: u8)
        requires
            old(self).can_write(address, 1),
        ensures
            final(self).contents() == if old(self).stores(address) {
                old(self).contents().update(address as int, val)
            } else {
                old(self).contents()
            },
            final(self).out_stream() == if old(self).stores(address) {
                old(self).out_stream()
            } else {
                old(self).out_stream().push(val)
            },
            forall|a: Address, w: nat| #[trigger] final(self).can_read(a, w) == old(
                self,
            ).can_read(a, w),
            forall|a: Address, w: nat| #[trigger] final(self).can_write(a, w) == old(
                self,
            ).can_write(a, w),
            forall|a: Address| #[trigger] final(self).stores(a) == old(self).stores(a),
    ;

    fn write_halfword(&mut self, address: Address, val: u16)
        requires
            old(self).can_write(address, 2),
        ensures
            final(self).contents() == old(self).contents().update(address as int, lo16(val)).update(
                address + 1,
                hi16(val),
            ),
            final(self).out_stream() == old(self).out_stream(),
            forall|a: Address, w: nat| #[trigger] final(self).can_read(a, w) == old(
                self,
            ).can_read(a, w),
            forall|a: Address, w: nat| #[trigger] final(self).can_write(a, w) == old(
                self,
            ).can_write(a, w),
            forall|a: Address| #[trigger] final(self).stores(a) == old(self).stores(a),
    ;

    fn write_word(&mut self, address: Address, val: u32)
        requires
            old(self).can_write(address, 4),
        ensures
            final(self).contents() == old(self).contents().update(
                address as int,
                u32_byte(val, 0),
            ).update(address + 1, u32_byte(val, 1)).update(address + 2, u32_byte(val, 2)).update(
                address + 3,
                u32_byte(val, 3),
            ),
            final(self).out_stream() == old(self).out_stream(),
            forall|a: Address, w: nat| #[trigger] final(self).can_read(a, w) == old(
                self,
            ).can_read(a, w),
            forall|a: Address, w: nat| #[trigger] final(self).can_write(a, w) == old(
                self,
            ).can_write(a, w),
            forall|a: Address| #[trigger] final(self).stores(a) == old(self).stores(a),
    ;
}

pub struct AddressSpace {
    pub memory: Vec<u8>,
    pub instruction_buffer: Vec<Instruction>,
    pub output: Vec<u8>,
}

impl AddressSpace {
    /// The pre-decoded instructions, indexed by byte address.
    pub open spec fn instructions(&self) -> Seq<Instruction> {
        self.instruction_buffer@
    }

    pub fn new() -> (r: AddressSpace)
        ensures
            r.contents().len() == FLAT_MEMORY_BYTES,
            forall|i: int| 0 <= i < r.contents().len() ==> r.contents()[i] == 0,
            r.instructions() == Seq::<Instruction>::empty(),
            r.out_stream() == Seq::<u8>::empty(),
    {
        AddressSpace {
            memory: vec![0u8; FLAT_MEMORY_BYTES as usize],
            instruction_buffer: vec![],
            output: Vec::new(),
        }
    }

    /// The pre-decoded instruction at a byte address.
    pub fn read_instruction(&self, address: Address) -> (r: &Instruction)
        requires
            address < self.instructions().len(),
        ensures
            *r == self.instructions()[address as int],
    {
        &self.instruction_buffer[address as usize]
    }

    /// Decode the word at every byte address below `n_bytes` and append
    /// the results to the instruction buffer.
    pub fn init_instruction_buffer(&mut self, n_bytes: u32)
        requires
            n_bytes == 0 || n_bytes + 3 < old(self).contents().len(),
        ensures
            final(self).contents() == old(self).contents(),
            final(self).out_stream() == old(self).out_stream(),
            final(self).instructions() == old(self).instructions() + Seq::new(
                n_bytes as nat,
                |i: int|
                    decode(
                        le32(
                            old(self).contents()[i],
                            old(self).contents()[i + 1],
                            old(self).contents()[i + 2],
                            old(self).contents()[i + 3],
                        ),
                    ),
            ),
            forall|j: int|
                old(self).instructions().len() <= j < final(self).instructions().len() ==> wf_instr(
                    #[trigger] final(self).instructions()[j],
                ),
    {
        let ghost buf0 = self.instruction_buffer@;
        let mut i: u32 = 0;
        while i < n_bytes
            invariant
                i <= n_bytes,
                n_bytes == 0 || n_bytes + 3 < self.memory@.len(),
                self.memory@ == old(self).memory@,
                self.output@ == old(self).output@,
                buf0 == old(self).instruction_buffer@,
                self.instruction_buffer@ == buf0 + Seq::new(
                    i as nat,
                    |j: int|
                        decode(
                            le32(
                                self.memory@[j],
                                self.memory@[j + 1],
                                self.memory@[j + 2],
                                self.memory@[j + 3],
                            ),
                        ),
                ),
                forall|j: int|
                    buf0.len() <= j < self.instruction_buffer@.len() ==> wf_instr(
                        #[trigger] self.instruction_buffer@[j],
                    ),
            decreases n_bytes - i,
        {
            let instruction = Instruction::new(self.read_word(i));
            self.instruction_buffer.push(instruction);
            proof {
                assert(self.instruction_buffer@ =~= buf0 + Seq::new(
                    i as nat + 1,
                    |j: int|
                        decode(
                            le32(
                                self.memory@[j],
                                self.memory@[j + 1],
                                self.memory@[j + 2],
                                self.memory@[j + 3],
                            ),
                        ),
                ));
            }
            i += 1;
        }
    }
}

impl MemoryDevice for AddressSpace {
    open spec fn contents(&self) -> Seq<u8> {
        self.memory@
    }

    open spec fn out_stream(&self) -> Seq<u8> {
        self.output@
    }

    open spec fn can_read(&self, address: Address, width: nat) -> bool {
        address + width <= self.contents().len()
    }

    open spec fn can_write(&self, address: Address, width: nat) -> bool {
        if width == 1 {
            address < self.contents().len() || address == CONSOLE_ADDRESS
        } else {
            address + width <= self.contents().len()
        }
    }

    open spec fn stores(&self, address: Address) -> bool {
        address != CONSOLE_ADDRESS
    }

    fn read_byte(&self, address: Address) -> (r: u8) {
        self.memory[address as usize]
    }

    fn read_halfword(&self, address: Address) -> (r: u16) {
        let count = self.memory.len();
        proof {
            assert(address < count);
        }
        let index = address as usize;
        (self.memory[index] as u16) | ((self.memory[index + 1] as u16) << 8)
    }

    fn read_word(&self, address: Address) -> (r: u32) {
        let count = self.memory.len();
        proof {
            assert(address < count);
        }
        let index = address as usize;
        (self.memory[index] as u32) | ((self.memory[index + 1] as u32) << 8) | ((self.memory[index
            + 2] as u32) << 16) | ((self.memory[index + 3] as u32) << 24)
    }

    fn write_byte(&mut self, address: Address, val: u8) {
        if address == CONSOLE_ADDRESS {
            self.output.push(val);
            host_emit_byte(val);
            host_flush();
            return ;
        }
        self.memory[address as usize] = val;
    }

    fn write_halfword(&mut self, address: Address, val: u16) {
        let count = self.memory.len();
        proof {
            assert(address < count);
        }
        let index = address as usize;
        self.memory[index] = (val & 0xff) as u8;
        self.memory[index + 1] = ((val >> 8) & 0xff) as u8;
    }

    fn write_word(&mut self, address: Address, val: u32) {
        let count = self.memory.len();
        proof {
            assert(address < count);
        }
        let index = address as usize;
        self.memory[index] = (val & 0xff) as u8;
        self.memory[index + 1] = ((val >> 8) & 0xff) as u8;
        self.memory[index + 2] = ((val >> 16) & 0xff) as u8;
        self.memory[index + 3] = ((val >> 24) & 0xff) as u8;
    }
}

} // verus!
