//! The loader's error taxonomy: a host I/O failure, or an input that is
//! not a loadable RISC-V ELF image.

use vstd::prelude::*;

verus! {

#[derive(Debug)]
pub enum EmulatorError {
    IOError(String),
    ElfFormatError(String),
}

pub type EmulatorResult<R> = Result<R, EmulatorError>;

} // verus!
