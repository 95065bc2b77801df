//! ELF file headers.
use vstd::prelude::*;
use crate::mem::{MemoryRegion, le16, le32, le64};

verus! {

pub const EI_MAG0: usize = 0;
pub const EI_MAG1: usize = 1;
pub const EI_MAG2: usize = 2;
pub const EI_MAG3: usize = 3;
pub const EI_CLSS: usize = 4;
pub const EI_DATA: usize = 5;

pub const ELFMAG0: u8 = 127;
pub const ELFMAG1: u8 = 0x45;
pub const ELFMAG2: u8 = 0x4C;
pub const ELFMAG3: u8 = 0x46;

pub const ELF32CL: u8 = 1;
pub const ELF64CL: u8 = 2;

pub const ELFDATA2LSB: u8 = 1;

pub const PT_LOAD: u32 = 1;

/// The size of a 32-bit ELF header in bytes.
pub const ELF32_HEADER_SIZE: u64 = 52;
/// The size of a 32-bit program header in bytes.
pub const ELF32_PHDR_SIZE: u64 = 32;
/// The size of a 64-bit ELF header in bytes.
pub const ELF64_HEADER_SIZE: u64 = 64;
/// The size of a 64-bit program header in bytes.
pub const ELF64_PHDR_SIZE: u64 = 56;

#[derive(Copy, Clone)]
pub struct Elf32Header {
    pub e_ident: [u8; 16],
    pub e_type: u16,
    pub e_cpu: u16,
    pub e_version: u32,
    pub e_entry: u32,
    pub e_phoff: u32,
    pub e_shoff: u32,
    pub e_flags: u32,
    pub e_ehsize: u16,
    pub e_phsize: u16,
    pub e_phnum: u16,
    pub e_shsize: u16,
    pub e_shnum: u16,
    pub e_shname: u16,
}

#[derive(Copy, Clone)]
pub struct Elf32ProgramHeader {
    pub p_type: u32,
    pub p_offset: u32,
    pub p_vaddr: u32,
    pub p_paddr: u32,
    pub p_fsize: u32,
    pub p_msize: u32,
    pub p_flags: u32,
    pub p_align: u32,
}

#[derive(Copy, Clone)]
pub struct Elf64Header {
    pub e_ident: [u8; 16],
    pub e_type: u16,
    pub e_cpu: u16,
    pub e_version: u32,
    pub e_entry: u64,
    pub e_phoff: u64,
    pub e_shoff: u64,
    pub e_flags: u32,
    pub e_ehsize: u16,
    pub e_phsize: u16,
    pub e_phnum: u16,
    pub e_shsize: u16,
    pub e_shnum: u16,
    pub e_shname: u16,
}

#[derive(Copy, Clone)]
pub struct Elf64ProgramHeader {
    pub p_type: u32,
    pub p_flags: u32,
    pub p_offset: u64,
    pub p_vaddr: u64,
    pub p_paddr: u64,
    pub p_fsize: u64,
    pub p_msize: u64,
    pub p_align: u64,
}

/// The 16 identification bytes at the start of `image`.
fn read_ident(image: &MemoryRegion) -> (r: [u8; 16])
    requires
        image@.len() >= 16,
    ensures
        r@ == image@.subrange(0, 16),
{
    let mut id = [0u8; 16];
    let mut i: usize = 0;
    while i < 16
        invariant
            i <= 16,
            image@.len() >= 16,
            forall|j: int| 0 <= j < i ==> id@[j] == image@[j],
        decreases 16 - i,
    {
        id[i] = image.read_u8(i as u64);
        i = i + 1;
    }
    assert(id@ =~= image@.subrange(0, 16));
    id
}

impl Elf32Header {
    /// The header at the start of `image`.
    pub fn read_from(image: &MemoryRegion) -> (r: Self)
        requires
            image@.len() >= ELF32_HEADER_SIZE,
        ensures
            r.e_ident@ == image@.subrange(0, 16),
            r.e_entry == le32(image@, 24),
            r.e_phoff == le32(image@, 28),
            r.e_phsize == le16(image@, 42),
            r.e_phnum == le16(image@, 44),
    {
        Elf32Header {
            e_ident: read_ident(image),
            e_type: image.read_u16(16),
            e_cpu: image.read_u16(18),
            e_version: image.read_u32(20),
            e_entry: image.read_u32(24),
            e_phoff: image.read_u32(28),
            e_shoff: image.read_u32(32),
            e_flags: image.read_u32(36),
            e_ehsize: image.read_u16(40),
            e_phsize: image.read_u16(42),
            e_phnum: image.read_u16(44),
            e_shsize: image.read_u16(46),
            e_shnum: image.read_u16(48),
            e_shname: image.read_u16(50),
        }
    }
}

impl Elf32ProgramHeader {
    /// The program header at byte `at` of `image`.
    pub fn read_from(image: &MemoryRegion, at: u64) -> (r: Self)
        requires
            at + ELF32_PHDR_SIZE <= image@.len(),
        ensures
            r.p_type == le32(image@, at as int),
            r.p_offset == le32(image@, at + 4),
            r.p_paddr == le32(image@, at + 12),
            r.p_fsize == le32(image@, at + 16),
            r.p_msize == le32(image@, at + 20),
    {
        let _n = image.len_usize();
        Elf32ProgramHeader {
            p_type: image.read_u32(at),
            p_offset: image.read_u32(at + 4),
            p_vaddr: image.read_u32(at + 8),
            p_paddr: image.read_u32(at + 12),
            p_fsize: image.read_u32(at + 16),
            p_msize: image.read_u32(at + 20),
            p_flags: image.read_u32(at + 24),
            p_align: image.read_u32(at + 28),
        }
    }
}

impl Elf64Header {
    /// The header at the start of `image`.
    pub fn read_from(image: &MemoryRegion) -> (r: Self)
        requires
            image@.len() >= ELF64_HEADER_SIZE,
        ensures
            r.e_ident@ == image@.subrange(0, 16),
            r.e_entry == le64(image@, 24),
            r.e_phoff == le64(image@, 32),
            r.e_phsize == le16(image@, 54),
            r.e_phnum == le16(image@, 56),
    {
        Elf64Header {
            e_ident: read_ident(image),
            e_type: image.read_u16(16),
            e_cpu: image.read_u16(18),
            e_version: image.read_u32(20),
            e_entry: image.read_u64(24),
            e_phoff: image.read_u64(32),
            e_shoff: image.read_u64(40),
            e_flags: image.read_u32(48),
            e_ehsize: image.read_u16(52),
            e_phsize: image.read_u16(54),
            e_phnum: image.read_u16(56),
            e_shsize: image.read_u16(58),
            e_shnum: image.read_u16(60),
            e_shname: image.read_u16(62),
        }
    }
}

impl Elf64ProgramHeader {
    /// The program header at byte `at` of `image`.
    pub fn read_from(image: &MemoryRegion, at: u64) -> (r: Self)
        requires
            at + ELF64_PHDR_SIZE <= image@.len(),
        ensures
            r.p_type == le32(image@, at as int),
            r.p_offset == le64(image@, at + 8),
            r.p_paddr == le64(image@, at + 24),
            r.p_fsize == le64(image@, at + 32),
            r.p_msize == le64(image@, at + 40),
    {
        let _n = image.len_usize();
        Elf64ProgramHeader {
            p_type: image.read_u32(at),
            p_flags: image.read_u32(at + 4),
            p_offset: image.read_u64(at + 8),
            p_vaddr: image.read_u64(at + 16),
            p_paddr: image.read_u64(at + 24),
            p_fsize: image.read_u64(at + 32),
            p_msize: image.read_u64(at + 40),
            p_align: image.read_u64(at + 48),
        }
    }
}

} // verus!
