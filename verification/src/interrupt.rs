//! The interrupt controller: counts polls and remembers where the
//! interrupt table lives.  No interrupt source is wired to it, so a
//! poll never redirects control.

use vstd::prelude::*;
use crate::memory::addressspace::{Address, AddressSpace};

verus! {

pub struct InterruptController {
    interrupt_table: Address,
    counter: u64,
}

impl InterruptController {
    /// The address of the interrupt table.
    pub closed spec fn table(&self) -> Address {
        self.interrupt_table
    }

    /// How many times the controller has been polled.
    pub closed spec fn polls(&self) -> u64 {
        self.counter
    }

    pub fn new() -> (r: InterruptController)
        ensures
            r.table() == 0,
            r.polls() == 0,
    {
        InterruptController { interrupt_table: 0, counter: 0 }
    }

    /// Poll for a pending interrupt: the count of polls advances and,
    /// with no source wired up, nothing is ever pending.
    pub fn check_for_interrupt(&mut self, memory: &mut AddressSpace) -> (r: Option<Address>)
        ensures
            r is None,
            *final(memory) == *old(memory),
            final(self).table() == old(self).table(),
            final(self).polls() == u64_wrapping_inc(old(self).polls()),
    {
        self.counter = self.counter.wrapping_add(1);
        None
    }

    pub fn set_interrupt_table(&mut self, address: Address)
        ensures
            final(self).table() == address,
            final(self).polls() == old(self).polls(),
    {
        self.interrupt_table = address;
    }
}

/// A 64-bit count advanced by one, wrapping at the top.
pub open spec fn u64_wrapping_inc(x: u64) -> u64 {
    vstd::wrapping::u64_specs::wrapping_add(x, 1)
}

} // verus!
