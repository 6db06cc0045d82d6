//! A user-mode RISC-V (RV32IMA) emulator core: instruction decoder,
//! fetch/decode/execute loop, and a memory-mapped address space with
//! RAM, console and video devices.
//!
//! The decoder is a total function from instruction words to decoded
//! operations, proved to invert the canonical encoder; the execution
//! core realises the per-instruction relation `cpu::exec_rel`; the
//! memory devices and the router carry byte-exact contracts, console
//! output stream included.

pub mod addressspace;
pub mod cpu;
pub mod encoding;
pub mod error;
pub mod instruction;
pub mod interrupt;
pub mod loader;
pub mod memory;
pub mod ram;
pub mod util;
