//! The ELF loader: parses an image, checks that it is a 32-bit RISC-V
//! binary whose loadable segments fit both the file and RAM, and
//! deposits each segment's file bytes at its virtual address through
//! the memory API.  The host reads the file; this module does the rest.

use vstd::prelude::*;
use vstd::string::StringExecFns;
use crate::error::{EmulatorError, EmulatorResult};
use crate::memory::addressspace::{AddressSpace, RAM_END};

verus! {

/// The ELF machine number of RISC-V.
pub const EM_RISCV: u16 = 243;

/// The program-header type of a loadable segment.
pub const PT_LOAD: u32 = 1;

/// One program header, reduced to the fields the loader reads.
#[derive(Clone, Copy, PartialEq, Eq, Structural, Debug)]
pub struct ElfSegment {
    pub p_type: u32,
    pub p_offset: u64,
    pub p_vaddr: u64,
    pub p_filesz: u64,
}

/// A parsed ELF image, reduced to the machine number and the program
/// headers.
pub struct ElfImage {
    pub e_machine: u16,
    pub segments: Vec<ElfSegment>,
}

/// The abstract form of a parsed image.
pub struct ElfImageView {
    pub e_machine: u16,
    pub segments: Seq<ElfSegment>,
}

/// What the ELF parser returns on the given bytes: `None` when they are
/// not an ELF image, otherwise the machine number and program headers.
pub uninterp spec fn parsed_elf(bytes: Seq<u8>) -> Option<ElfImageView>;

/// Relies on goblin's `Object::parse`: deterministic on the bytes
/// alone, it recognises ELF images and exposes their header and program
/// headers; non-ELF and malformed input is rejected.
#[verifier::external_body]
fn parse_elf(bytes: &Vec<u8>) -> (r: Option<ElfImage>)
    ensures
        match (r, parsed_elf(bytes@)) {
            (Some(img), Some(v)) => img.e_machine == v.e_machine && img.segments@ == v.segments,
            (None, None) => true,
            _ => false,
        },
{
    match goblin::Object::parse(bytes) {
        Ok(goblin::Object::Elf(elf)) => Some(ElfImage {
            e_machine: elf.header.e_machine,
            segments: elf.program_headers.iter().map(
                |phdr| ElfSegment {
                    p_type: phdr.p_type,
                    p_offset: phdr.p_offset,
                    p_vaddr: phdr.p_vaddr,
                    p_filesz: phdr.p_filesz,
                },
            ).collect(),
        }),
        _ => None,
    }
}

/// A loadable segment lies within the file and within RAM.
pub open spec fn seg_loadable(s: ElfSegment, n_bytes: int) -> bool {
    s.p_type == PT_LOAD ==> {
        &&& s.p_offset + s.p_filesz <= n_bytes
        &&& s.p_vaddr + s.p_filesz <= RAM_END + 1
    }
}

pub open spec fn all_loadable(segs: Seq<ElfSegment>, n_bytes: int) -> bool {
    forall|i: int| 0 <= i < segs.len() ==> seg_loadable(#[trigger] segs[i], n_bytes)
}

/// RAM after the first `cnt` bytes of one segment have been deposited.
pub open spec fn apply_segment_prefix(ram: Seq<u8>, s: ElfSegment, bytes: Seq<u8>, cnt: int) -> Seq<
    u8,
> {
    Seq::new(
        ram.len(),
        |i: int|
            if s.p_vaddr <= i < s.p_vaddr + cnt {
                bytes[i - s.p_vaddr + s.p_offset]
            } else {
                ram[i]
            },
    )
}

/// RAM after one whole segment: a loadable segment contributes its file
/// bytes at its virtual address, any other kind contributes nothing.
pub open spec fn apply_segment(ram: Seq<u8>, s: ElfSegment, bytes: Seq<u8>) -> Seq<u8> {
    if s.p_type == PT_LOAD {
        apply_segment_prefix(ram, s, bytes, s.p_filesz as int)
    } else {
        ram
    }
}

/// RAM after the first `k` segments have been deposited in order.
pub open spec fn deposit(ram: Seq<u8>, segs: Seq<ElfSegment>, bytes: Seq<u8>, k: int) -> Seq<u8>
    decreases k,
{
    if k <= 0 {
        ram
    } else {
        apply_segment(deposit(ram, segs, bytes, k - 1), segs[k - 1], bytes)
    }
}

/// Parse `bytes` as a RISC-V ELF image and write every loadable
/// segment's file bytes into RAM.  Rejected with `ElfFormatError`, and
/// with memory untouched: input that is not an ELF image, a machine
/// other than RISC-V, or a loadable segment that overruns the file or
/// RAM.
pub fn load_program(bytes: &Vec<u8>, memory: &mut AddressSpace) -> (r: EmulatorResult<()>)
    requires
        old(memory).inv(),
    ensures
        final(memory).inv(),
        match parsed_elf(bytes@) {
            None => r is Err && *final(memory) == *old(memory),
            Some(v) => {
                if v.e_machine != EM_RISCV {
                    r is Err && *final(memory) == *old(memory)
                } else if all_loadable(v.segments, bytes@.len() as int) {
                    &&& r is Ok
                    &&& final(memory).ram_bytes() == deposit(
                        old(memory).ram_bytes(),
                        v.segments,
                        bytes@,
                        v.segments.len() as int,
                    )
                    &&& final(memory).dbg_bytes() == old(memory).dbg_bytes()
                    &&& final(memory).vid_bytes() == old(memory).vid_bytes()
                    &&& final(memory).console_out() == old(memory).console_out()
                    &&& final(memory).interrupt_flags == old(memory).interrupt_flags
                } else {
                    r is Err && *final(memory) == *old(memory)
                }
            },
        },
        r is Err ==> (r matches Err(EmulatorError::ElfFormatError(_))),
{
    let image = match parse_elf(bytes) {
        Some(img) => img,
        None => {
            return Err(EmulatorError::ElfFormatError(String::from_str("not an ELF image")));
        },
    };

    if image.e_machine != EM_RISCV {
        return Err(EmulatorError::ElfFormatError(String::from_str("invalid architecture")));
    }
    let n = image.segments.len();
    let n_bytes: u64 = bytes.len() as u64;

    let mut i: usize = 0;
    while i < n
        invariant
            i <= n,
            n == image.segments@.len(),
            n_bytes == bytes@.len(),
            old(memory).inv(),
            *memory == *old(memory),
            image.e_machine == EM_RISCV,
            match parsed_elf(bytes@) {
                Some(v) => v.e_machine == image.e_machine && v.segments == image.segments@,
                None => false,
            },
            forall|j: int| 0 <= j < i ==> seg_loadable(#[trigger] image.segments@[j], n_bytes as int),
        decreases n - i,
    {
        let seg = image.segments[i];
        if seg.p_type == PT_LOAD {
            if seg.p_filesz > n_bytes || seg.p_offset > n_bytes - seg.p_filesz {
                proof {
                    assert(!seg_loadable(image.segments@[i as int], n_bytes as int));
                }
                return Err(
                    EmulatorError::ElfFormatError(String::from_str("truncated segment")),
                );
            }
            let ram_size: u64 = (RAM_END as u64) + 1;
            if seg.p_filesz > ram_size || seg.p_vaddr > ram_size - seg.p_filesz {
                proof {
                    assert(!seg_loadable(image.segments@[i as int], n_bytes as int));
                }
                return Err(
                    EmulatorError::ElfFormatError(String::from_str("segment outside RAM")),
                );
            }
        }
        i += 1;
    }

    let ghost segs = image.segments@;
    let ghost ram0 = memory.ram_bytes();

    let mut k: usize = 0;
    while k < n
        invariant
            k <= n,
            n == image.segments@.len(),
            n_bytes == bytes@.len(),
            segs == image.segments@,
            all_loadable(segs, n_bytes as int),
            memory.inv(),
            image.e_machine == EM_RISCV,
            match parsed_elf(bytes@) {
                Some(v) => v.e_machine == image.e_machine && v.segments == image.segments@,
                None => false,
            },
            ram0 == old(memory).ram_bytes(),
            memory.ram_bytes() == deposit(ram0, segs, bytes@, k as int),
            memory.dbg_bytes() == old(memory).dbg_bytes(),
            memory.vid_bytes() == old(memory).vid_bytes(),
            memory.console_out() == old(memory).console_out(),
            memory.interrupt_flags == old(memory).interrupt_flags,
            ram0.len() == RAM_END + 1,
        decreases n - k,
    {
        let seg = image.segments[k];
        let ghost ram_k = memory.ram_bytes();
        if seg.p_type == PT_LOAD {
            let mut idx: u64 = 0;
            while idx < seg.p_filesz
                invariant
                    idx <= seg.p_filesz,
                    n_bytes == bytes@.len(),
                    seg_loadable(seg, n_bytes as int),
                    seg.p_type == PT_LOAD,
                    memory.inv(),
                    memory.ram_bytes() == apply_segment_prefix(ram_k, seg, bytes@, idx as int),
                    memory.dbg_bytes() == old(memory).dbg_bytes(),
                    memory.vid_bytes() == old(memory).vid_bytes(),
                    memory.console_out() == old(memory).console_out(),
                    memory.interrupt_flags == old(memory).interrupt_flags,
                    ram_k.len() == RAM_END + 1,
                decreases seg.p_filesz - idx,
            {
                let file_len: usize = bytes.len();
                let off: u64 = seg.p_offset + idx;
                proof {
                    assert(off < file_len);
                    assert(seg.p_vaddr + idx <= RAM_END);
                }
                let byte = bytes[off as usize];
                let address = (seg.p_vaddr + idx) as u32;
                let ghost before = memory.ram_bytes();
                memory.write_byte(address, byte);
                proof {
                    assert(address == seg.p_vaddr + idx);
                    assert(byte == bytes@[off as int]);
                    assert(memory.ram_bytes() == before.update(address as int, byte));
                    assert(memory.ram_bytes() =~= apply_segment_prefix(
                        ram_k,
                        seg,
                        bytes@,
                        idx as int + 1,
                    ));
                }
                idx += 1;
            }
            proof {
                assert(memory.ram_bytes() =~= apply_segment(ram_k, seg, bytes@));
            }
        } else {
            proof {
                assert(memory.ram_bytes() =~= apply_segment(ram_k, seg, bytes@));
            }
        }
        k += 1;
    }

    Ok(())
}

} // verus!
