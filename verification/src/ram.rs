//! The flat RAM variant that pairs with the single-buffer address
//! space: one megabyte of plain storage behind the same device
//! interface, console address included.

use vstd::prelude::*;
use crate::addressspace::{Address, MemoryDevice, CONSOLE_ADDRESS, FLAT_MEMORY_BYTES};
use crate::memory::debug::{host_emit_byte, host_flush};

verus! {

pub struct Ram {
    pub memory: Vec<u8>,
    pub output: Vec<u8>,
}

impl Ram {
    pub fn new() -> (r: Ram)
        ensures
            r.contents().len() == FLAT_MEMORY_BYTES,
            forall|i: int| 0 <= i < r.contents().len() ==> r.contents()[i] == 0,
            r.out_stream() == Seq::<u8>::empty(),
    {
        Ram { memory: vec![0u8; FLAT_MEMORY_BYTES as usize], output: Vec::new() }
    }
}

impl MemoryDevice for Ram {
    open spec fn contents(&self) -> Seq<u8> {
        self.memory@
    }

    open spec fn out_stream(&self) -> Seq<u8> {
        self.output@
    }

    open spec fn can_read(&self, address: Address, width: nat) -> bool {
        address + width <= self.contents().len()
    }

    open spec fn can_write(&self, address: Address, width: nat) -> bool {
        if width == 1 {
            address < self.contents().len() || address == CONSOLE_ADDRESS
        } else {
            address + width <= self.contents().len()
        }
    }

    open spec fn stores(&self, address: Address) -> bool {
        address != CONSOLE_ADDRESS
    }

    fn read_byte(&self, address: Address) -> (r: u8) {
        self.memory[address as usize]
    }

    fn read_halfword(&self, address: Address) -> (r: u16) {
        let count = self.memory.len();
        proof {
            assert(address < count);
        }
        let index = address as usize;
        (self.memory[index] as u16) | ((self.memory[index + 1] as u16) << 8)
    }

    fn read_word(&self, address: Address) -> (r: u32) {
        let count = self.memory.len();
        proof {
            assert(address < count);
        }
        let index = address as usize;
        (self.memory[index] as u32) | ((self.memory[index + 1] as u32) << 8) | ((self.memory[index
            + 2] as u32) << 16) | ((self.memory[index + 3] as u32) << 24)
    }

    fn write_byte(&mut self, address: Address, val: u8) {
        if address == CONSOLE_ADDRESS {
            self.output.push(val);
            host_emit_byte(val);
            host_flush();
            return ;
        }
        self.memory[address as usize] = val;
    }

    fn write_halfword(&mut self, address: Address, val: u16) {
        let count = self.memory.len();
        proof {
            assert(address < count);
        }
        let index = address as usize;
        self.memory[index] = (val & 0xff) as u8;
        self.memory[index + 1] = ((val >> 8) & 0xff) as u8;
    }

    fn write_word(&mut self, address: Address, val: u32) {
        let count = self.memory.len();
        proof {
            assert(address < count);
        }
        let index = address as usize;
        self.memory[index] = (val & 0xff) as u8;
        self.memory[index + 1] = ((val >> 8) & 0xff) as u8;
        self.memory[index + 2] = ((val >> 16) & 0xff) as u8;
        self.memory[index + 3] = ((val >> 24) & 0xff) as u8;
    }
}

} // verus!
