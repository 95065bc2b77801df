//! Loading the kernel: the ELF loader, the configuration file, and the boot parameters.
pub mod config;
pub mod elf;

use vstd::prelude::*;
use vstd::string::StringSliceAdditionalSpecFns;
use crate::mem::{MemoryRegion, le16, le32, le64, put_le16, put_le32};
use crate::layout::{CMD_LINE_ADDR, ELF_START, INITRD_START};
use crate::fs::blkdev::BlockDevice;
use crate::fs::fat32::dir::{Dir, dir_lookup, exists_result, entry_cluster, lookup_defined};
use crate::fs::fat32::file::{FileError, file_data, file_read_ok, lemma_file_data_len};
use crate::loader::config::Config;
use crate::loader::elf::{
    Elf32Header, Elf32ProgramHeader, Elf64Header, Elf64ProgramHeader, ELF32_HEADER_SIZE,
    ELF32_PHDR_SIZE, ELF64_HEADER_SIZE, ELF64_PHDR_SIZE,
};

verus! {

/// Why an ELF image cannot be loaded.
#[derive(Debug, Clone, Copy, PartialEq, Eq, Structural)]
pub enum ParseError {
    InvalidElfEndian,
    InvalidElfMagicNumber,
    InvalidEntryAddress,
    InvalidArchitecture,
    InvalidProgramHeaderSize,
    InvalidProgramHeaderOffset,
    InvalidProgramHeaderAddress,
}

impl ParseError {
    /// A message that describes the error.
    pub fn stringify(&self) -> (r: &'static str)
        ensures
            *self == ParseError::InvalidElfEndian ==> r@ == "Unsupported ELF File byte order"@,
            *self == ParseError::InvalidElfMagicNumber ==> r@ == "Invalid ELF magic number"@,
            *self == ParseError::InvalidEntryAddress ==> r@
                == "Invalid entry address found in ELF header"@,
            *self == ParseError::InvalidArchitecture ==> r@ == "Unsupported target acrhitecture"@,
            *self == ParseError::InvalidProgramHeaderSize ==> r@
                == "Invalid ELF program header size"@,
            *self == ParseError::InvalidProgramHeaderOffset ==> r@
                == "Invalid ELF program header offset"@,
            *self == ParseError::InvalidProgramHeaderAddress ==> r@
                == "Invalid ELF program header address"@,
    {
        match self {
            ParseError::InvalidElfEndian => "Unsupported ELF File byte order",
            ParseError::InvalidElfMagicNumber => "Invalid ELF magic number",
            ParseError::InvalidEntryAddress => "Invalid entry address found in ELF header",
            ParseError::InvalidArchitecture => "Unsupported target acrhitecture",
            ParseError::InvalidProgramHeaderSize => "Invalid ELF program header size",
            ParseError::InvalidProgramHeaderOffset => "Invalid ELF program header offset",
            ParseError::InvalidProgramHeaderAddress => "Invalid ELF program header address",
        }
    }
}

/// The entry point of a kernel, in the width of its ELF class.
#[derive(Debug, Clone, Copy, PartialEq, Eq, Structural)]
pub enum GuestAddress {
    Addr32(u32),
    Addr64(u64),
}

/// One loadable segment: `size` bytes from `offset` of the image go to physical
/// address `paddr`, and the rest of its `mem_size` bytes in memory are zero.
#[derive(Debug, Clone, Copy, PartialEq, Eq, Structural)]
pub struct LoadSegment {
    pub paddr: u64,
    pub offset: u64,
    pub size: u64,
    pub mem_size: u64,
}

/// The lowest physical address that a kernel may be entered at or loaded to.
pub const KERNEL_MIN_ADDR: u64 = 0x100000;

/// The segments listed so far, and the error that ended the listing, if any.
pub type SegmentScan = (Seq<LoadSegment>, Option<ParseError>);

/// Put `prefix` in front of the segments of a listing.
pub open spec fn prepend(prefix: Seq<LoadSegment>, r: Option<SegmentScan>) -> Option<SegmentScan> {
    match r {
        Some((rest, e)) => Some((prefix + rest, e)),
        None => None,
    }
}

/// The loadable segments that the 32-bit program headers `i..phnum` at `phoff` of `s`
/// describe, in order, up to a segment whose address is too low, which ends the
/// listing with an error; `None` when a segment lies past the end of the image.
pub open spec fn elf32_segments(s: Seq<u8>, phoff: int, phnum: int, i: int) -> Option<SegmentScan>
    decreases phnum - i,
{
    if i < 0 || i >= phnum {
        Some((seq![], None))
    } else {
        let at = phoff + 32 * i;
        let offset = le32(s, at + 4);
        let paddr = le32(s, at + 12);
        let fsize = le32(s, at + 16);
        let msize = le32(s, at + 20);
        if le32(s, at) != 1 || fsize == 0 {
            elf32_segments(s, phoff, phnum, i + 1)
        } else if paddr < KERNEL_MIN_ADDR {
            Some((seq![], Some(ParseError::InvalidProgramHeaderAddress)))
        } else if offset + fsize > s.len() {
            None
        } else {
            prepend(
                seq![LoadSegment { paddr: paddr as u64, offset: offset as u64, size: fsize as u64, mem_size: msize as u64 }],
                elf32_segments(s, phoff, phnum, i + 1),
            )
        }
    }
}

/// The loadable segments that the 64-bit program headers `i..phnum` at `phoff` of `s`
/// describe, as `elf32_segments` does for 32-bit headers.
pub open spec fn elf64_segments(s: Seq<u8>, phoff: int, phnum: int, i: int) -> Option<SegmentScan>
    decreases phnum - i,
{
    if i < 0 || i >= phnum {
        Some((seq![], None))
    } else {
        let at = phoff + 56 * i;
        let offset = le64(s, at + 8);
        let paddr = le64(s, at + 24);
        let fsize = le64(s, at + 32);
        let msize = le64(s, at + 40);
        if le32(s, at) != 1 || fsize == 0 {
            elf64_segments(s, phoff, phnum, i + 1)
        } else if paddr < KERNEL_MIN_ADDR {
            Some((seq![], Some(ParseError::InvalidProgramHeaderAddress)))
        } else if offset + fsize > s.len() {
            None
        } else {
            prepend(
                seq![LoadSegment { paddr: paddr as u64, offset: offset as u64, size: fsize as u64, mem_size: msize as u64 }],
                elf64_segments(s, phoff, phnum, i + 1),
            )
        }
    }
}

/// The outcome of loading: the segments to copy and the entry point, or the segments
/// copied before the error and the error.
pub open spec fn with_entry(entry: GuestAddress, r: Option<SegmentScan>) -> Option<
    (Seq<LoadSegment>, Result<GuestAddress, ParseError>),
> {
    match r {
        None => None,
        Some((segs, Some(e))) => Some((segs, Err(e))),
        Some((segs, None)) => Some((segs, Ok(entry))),
    }
}

/// A refusal before any segment is looked at.
pub open spec fn refused(e: ParseError) -> Option<(Seq<LoadSegment>, Result<GuestAddress, ParseError>)> {
    Some((seq![], Err(e)))
}

/// What loading the ELF image `s` gives: the segments to copy, in order, and the entry
/// point or why loading stopped (segments listed before a bad one are still copied);
/// `None` when a header or segment lies past the end of the image.
pub open spec fn elf_load(s: Seq<u8>) -> Option<(Seq<LoadSegment>, Result<GuestAddress, ParseError>)> {
    if s.len() < 16 {
        None
    } else if s[0] != 127 || s[1] != 0x45 || s[2] != 0x4C || s[3] != 0x46 {
        refused(ParseError::InvalidElfMagicNumber)
    } else if s[5] != 1 {
        refused(ParseError::InvalidElfEndian)
    } else if s[4] == 1 {
        if s.len() < 52 {
            None
        } else {
            let phoff = le32(s, 28);
            let phnum = le16(s, 44);
            if phoff + 32 * phnum > s.len() {
                None
            } else if le16(s, 42) != 32 {
                refused(ParseError::InvalidProgramHeaderSize)
            } else if phoff < 52 {
                refused(ParseError::InvalidProgramHeaderOffset)
            } else if le32(s, 24) < KERNEL_MIN_ADDR {
                refused(ParseError::InvalidEntryAddress)
            } else {
                with_entry(GuestAddress::Addr32(le32(s, 24) as u32), elf32_segments(s, phoff, phnum, 0))
            }
        }
    } else if s[4] == 2 {
        if s.len() < 64 {
            None
        } else {
            let phoff = le64(s, 32);
            let phnum = le16(s, 56);
            if phoff + 56 * phnum > s.len() {
                None
            } else if le16(s, 54) != 56 {
                refused(ParseError::InvalidProgramHeaderSize)
            } else if phoff < 64 {
                refused(ParseError::InvalidProgramHeaderOffset)
            } else if le64(s, 24) < KERNEL_MIN_ADDR {
                refused(ParseError::InvalidEntryAddress)
            } else {
                with_entry(GuestAddress::Addr64(le64(s, 24) as u64), elf64_segments(s, phoff, phnum, 0))
            }
        }
    } else {
        refused(ParseError::InvalidArchitecture)
    }
}

/// The segments of a 32-bit image whose headers have been checked, and the error that
/// stopped the listing, if any.
fn load_segments32(image: &MemoryRegion, phoff: u64, phnum: u64) -> (r: (Vec<LoadSegment>, Option<ParseError>))
    requires
        phoff + 32 * phnum <= image@.len(),
        elf32_segments(image@, phoff as int, phnum as int, 0) is Some,
    ensures
        elf32_segments(image@, phoff as int, phnum as int, 0) == Some((r.0@, r.1)),
{
    let ghost s = image@;
    let total = image.len_usize() as u64;
    let mut segs: Vec<LoadSegment> = Vec::new();
    let mut i: u64 = 0;
    while i < phnum
        invariant
            s == image@,
            total == s.len(),
            phoff + 32 * phnum <= s.len(),
            i <= phnum,
            elf32_segments(s, phoff as int, phnum as int, 0) is Some,
            elf32_segments(s, phoff as int, phnum as int, 0) == prepend(
                segs@,
                elf32_segments(s, phoff as int, phnum as int, i as int),
            ),
        decreases phnum - i,
    {
        let at = phoff + 32 * i;
        let ph = Elf32ProgramHeader::read_from(image, at);
        if ph.p_type != 1 || ph.p_fsize == 0 {
            i = i + 1;
            continue;
        }
        if (ph.p_paddr as u64) < KERNEL_MIN_ADDR {
            assert(segs@ + seq![] =~= segs@);
            return (segs, Some(ParseError::InvalidProgramHeaderAddress));
        }
        let seg = LoadSegment {
            paddr: ph.p_paddr as u64,
            offset: ph.p_offset as u64,
            size: ph.p_fsize as u64,
            mem_size: ph.p_msize as u64,
        };
        proof {
            let rest = elf32_segments(s, phoff as int, phnum as int, i + 1);
            if let Some((x, e)) = rest {
                assert(segs@ + (seq![seg] + x) =~= segs@.push(seg) + x);
            }
        }
        segs.push(seg);
        i = i + 1;
    }
    assert(segs@ + seq![] =~= segs@);
    (segs, None)
}

/// The segments of a 64-bit image whose headers have been checked, and the error that
/// stopped the listing, if any.
fn load_segments64(image: &MemoryRegion, phoff: u64, phnum: u64) -> (r: (Vec<LoadSegment>, Option<ParseError>))
    requires
        phoff + 56 * phnum <= image@.len(),
        elf64_segments(image@, phoff as int, phnum as int, 0) is Some,
    ensures
        elf64_segments(image@, phoff as int, phnum as int, 0) == Some((r.0@, r.1)),
{
    let ghost s = image@;
    let total = image.len_usize() as u64;
    let mut segs: Vec<LoadSegment> = Vec::new();
    let mut i: u64 = 0;
    while i < phnum
        invariant
            s == image@,
            total == s.len(),
            phoff + 56 * phnum <= s.len(),
            i <= phnum,
            elf64_segments(s, phoff as int, phnum as int, 0) is Some,
            elf64_segments(s, phoff as int, phnum as int, 0) == prepend(
                segs@,
                elf64_segments(s, phoff as int, phnum as int, i as int),
            ),
        decreases phnum - i,
    {
        let at = phoff + 56 * i;
        let ph = Elf64ProgramHeader::read_from(image, at);
        if ph.p_type != 1 || ph.p_fsize == 0 {
            i = i + 1;
            continue;
        }
        if ph.p_paddr < KERNEL_MIN_ADDR {
            assert(segs@ + seq![] =~= segs@);
            return (segs, Some(ParseError::InvalidProgramHeaderAddress));
        }
        let seg = LoadSegment {
            paddr: ph.p_paddr,
            offset: ph.p_offset,
            size: ph.p_fsize,
            mem_size: ph.p_msize,
        };
        proof {
            let rest = elf64_segments(s, phoff as int, phnum as int, i + 1);
            if let Some((x, e)) = rest {
                assert(segs@ + (seq![seg] + x) =~= segs@.push(seg) + x);
            }
        }
        segs.push(seg);
        i = i + 1;
    }
    assert(segs@ + seq![] =~= segs@);
    (segs, None)
}

/// The 32-bit program header at byte `at` of `s` is a loadable one that `seg` copies.
pub open spec fn is_ph32(s: Seq<u8>, at: int, seg: LoadSegment) -> bool {
    &&& le32(s, at) == 1
    &&& seg.offset == le32(s, at + 4)
    &&& seg.paddr == le32(s, at + 12)
    &&& seg.size == le32(s, at + 16)
    &&& seg.mem_size == le32(s, at + 20)
    &&& seg.size != 0
    &&& seg.paddr >= KERNEL_MIN_ADDR
}

/// The 64-bit program header at byte `at` of `s` is a loadable one that `seg` copies.
pub open spec fn is_ph64(s: Seq<u8>, at: int, seg: LoadSegment) -> bool {
    &&& le32(s, at) == 1
    &&& seg.offset == le64(s, at + 8)
    &&& seg.paddr == le64(s, at + 24)
    &&& seg.size == le64(s, at + 32)
    &&& seg.mem_size == le64(s, at + 40)
    &&& seg.size != 0
    &&& seg.paddr >= KERNEL_MIN_ADDR
}

/// The index of the program header that the `j`-th loadable segment found from header
/// `i` on comes from, in a 32-bit image with `phnum` headers of 32 bytes from `phoff`.
pub open spec fn header_of32(s: Seq<u8>, phoff: int, phnum: int, i: int, j: int) -> int
    decreases phnum - i,
{
    if i < 0 || i >= phnum {
        i
    } else if le32(s, phoff + 32 * i) != 1 || le32(s, phoff + 32 * i + 16) == 0 {
        header_of32(s, phoff, phnum, i + 1, j)
    } else if j <= 0 {
        i
    } else {
        header_of32(s, phoff, phnum, i + 1, j - 1)
    }
}

proof fn lemma_elf32_from(s: Seq<u8>, phoff: int, phnum: int, i: int, j: int)
    requires
        0 <= i,
        phoff >= 0,
        phoff + 32 * phnum <= s.len(),
        elf32_segments(s, phoff, phnum, i) is Some,
        0 <= j < elf32_segments(s, phoff, phnum, i)->Some_0.0.len(),
    ensures
        i <= header_of32(s, phoff, phnum, i, j) < phnum,
        is_ph32(
            s,
            phoff + 32 * header_of32(s, phoff, phnum, i, j),
            elf32_segments(s, phoff, phnum, i)->Some_0.0[j],
        ),
    decreases phnum - i,
{
    let x = elf32_segments(s, phoff, phnum, i)->Some_0.0;
    let at = phoff + 32 * i;
    crate::mem::lemma_le32_bound(s, at + 4);
    crate::mem::lemma_le32_bound(s, at + 12);
    crate::mem::lemma_le32_bound(s, at + 16);
    crate::mem::lemma_le32_bound(s, at + 16 + 4);
    let rest = elf32_segments(s, phoff, phnum, i + 1)->Some_0.0;
    if le32(s, at) != 1 || le32(s, at + 16) == 0 {
        lemma_elf32_from(s, phoff, phnum, i + 1, j);
        assert(x[j] == rest[j]);
    } else if j > 0 {
        lemma_elf32_from(s, phoff, phnum, i + 1, j - 1);
        assert(x[j] == rest[j - 1]);
    }
}

/// The index of the program header that the `j`-th loadable segment found from header
/// `i` on comes from, in a 64-bit image with `phnum` headers of 56 bytes from `phoff`.
pub open spec fn header_of64(s: Seq<u8>, phoff: int, phnum: int, i: int, j: int) -> int
    decreases phnum - i,
{
    if i < 0 || i >= phnum {
        i
    } else if le32(s, phoff + 56 * i) != 1 || le64(s, phoff + 56 * i + 32) == 0 {
        header_of64(s, phoff, phnum, i + 1, j)
    } else if j <= 0 {
        i
    } else {
        header_of64(s, phoff, phnum, i + 1, j - 1)
    }
}

proof fn lemma_elf64_from(s: Seq<u8>, phoff: int, phnum: int, i: int, j: int)
    requires
        0 <= i,
        phoff >= 0,
        phoff + 56 * phnum <= s.len(),
        elf64_segments(s, phoff, phnum, i) is Some,
        0 <= j < elf64_segments(s, phoff, phnum, i)->Some_0.0.len(),
    ensures
        i <= header_of64(s, phoff, phnum, i, j) < phnum,
        is_ph64(
            s,
            phoff + 56 * header_of64(s, phoff, phnum, i, j),
            elf64_segments(s, phoff, phnum, i)->Some_0.0[j],
        ),
    decreases phnum - i,
{
    let x = elf64_segments(s, phoff, phnum, i)->Some_0.0;
    let at = phoff + 56 * i;
    crate::mem::lemma_le64_bound(s, at + 8);
    crate::mem::lemma_le64_bound(s, at + 24);
    crate::mem::lemma_le64_bound(s, at + 32);
    crate::mem::lemma_le64_bound(s, at + 32 + 8);
    let rest = elf64_segments(s, phoff, phnum, i + 1)->Some_0.0;
    if le32(s, at) != 1 || le64(s, at + 32) == 0 {
        lemma_elf64_from(s, phoff, phnum, i + 1, j);
        assert(x[j] == rest[j]);
    } else if j > 0 {
        lemma_elf64_from(s, phoff, phnum, i + 1, j - 1);
        assert(x[j] == rest[j - 1]);
    }
}

/// Law: every segment that loading a 32-bit ELF image lists is one of its loadable
/// program headers, taken field by field and in order: a PT_LOAD header among the
/// `le16(s, 44)` headers from `le32(s, 28)` whose physical address (bytes 12..16) is
/// where the segment goes and is at least `KERNEL_MIN_ADDR`, and whose file offset
/// (bytes 4..8), file size (bytes 16..20, not zero) and memory size (bytes 20..24) are
/// the segment's.
pub proof fn lemma_elf32_segments_are_headers(s: Seq<u8>)
    requires
        elf_load(s) is Some,
        s.len() >= 52,
        s[4] == 1,
    ensures
        forall|j: int|
            #![trigger elf_load(s)->Some_0.0[j]]
            #![trigger header_of32(s, le32(s, 28), le16(s, 44), 0, j)]
            0 <= j < elf_load(s)->Some_0.0.len() ==> 0 <= header_of32(s, le32(s, 28), le16(s, 44), 0, j) < le16(s, 44)
                && is_ph32(s, le32(s, 28) + 32 * header_of32(s, le32(s, 28), le16(s, 44), 0, j), elf_load(s)->Some_0.0[j]),
{
    if s[0] == 127 && s[1] == 0x45 && s[2] == 0x4C && s[3] == 0x46 && s[5] == 1 && le32(s, 28)
        + 32 * le16(s, 44) <= s.len() && le16(s, 42) == 32 && le32(s, 28) >= 52 && le32(s, 24)
        >= KERNEL_MIN_ADDR {
        let r = elf_load(s)->Some_0.0;
        let phoff = le32(s, 28);
        let phnum = le16(s, 44);
        assert forall|j: int|
            #![trigger header_of32(s, phoff, phnum, 0, j)]
            #![trigger r[j]]
            0 <= j < r.len() implies 0 <= header_of32(
            s,
            phoff,
            phnum,
            0,
            j,
        ) < phnum && is_ph32(s, phoff + 32 * header_of32(s, phoff, phnum, 0, j), r[j]) by {
            lemma_elf32_from(s, phoff, phnum, 0, j);
        }
    } else {
        assert(elf_load(s)->Some_0.0.len() == 0);
    }
}

/// Law: every segment that loading a 64-bit ELF image lists is one of its loadable
/// program headers, taken field by field and in order: a PT_LOAD header among the
/// `le16(s, 56)` headers from `le64(s, 32)` whose physical address (bytes 24..32) is
/// where the segment goes and is at least `KERNEL_MIN_ADDR`, and whose file offset
/// (bytes 8..16), file size (bytes 32..40, not zero) and memory size (bytes 40..48) are
/// the segment's.
pub proof fn lemma_elf64_segments_are_headers(s: Seq<u8>)
    requires
        elf_load(s) is Some,
        s.len() >= 64,
        s[4] == 2,
    ensures
        forall|j: int|
            #![trigger elf_load(s)->Some_0.0[j]]
            #![trigger header_of64(s, le64(s, 32), le16(s, 56), 0, j)]
            0 <= j < elf_load(s)->Some_0.0.len() ==> 0 <= header_of64(s, le64(s, 32), le16(s, 56), 0, j) < le16(s, 56)
                && is_ph64(s, le64(s, 32) + 56 * header_of64(s, le64(s, 32), le16(s, 56), 0, j), elf_load(s)->Some_0.0[j]),
{
    if s[0] == 127 && s[1] == 0x45 && s[2] == 0x4C && s[3] == 0x46 && s[5] == 1 && le64(s, 32)
        + 56 * le16(s, 56) <= s.len() && le16(s, 54) == 56 && le64(s, 32) >= 64 && le64(s, 24)
        >= KERNEL_MIN_ADDR {
        let r = elf_load(s)->Some_0.0;
        let phoff = le64(s, 32);
        let phnum = le16(s, 56);
        assert forall|j: int|
            #![trigger header_of64(s, phoff, phnum, 0, j)]
            #![trigger r[j]]
            0 <= j < r.len() implies 0 <= header_of64(
            s,
            phoff,
            phnum,
            0,
            j,
        ) < phnum && is_ph64(s, phoff + 56 * header_of64(s, phoff, phnum, 0, j), r[j]) by {
            lemma_elf64_from(s, phoff, phnum, 0, j);
        }
    } else {
        assert(elf_load(s)->Some_0.0.len() == 0);
    }
}


/// The memory image of a loadable segment: what it holds after loading, from `paddr`.
pub open spec fn segment_image(image: Seq<u8>, seg: LoadSegment) -> Seq<u8> {
    image.subrange(seg.offset as int, seg.offset + seg.size) + Seq::new(
        (if seg.mem_size > seg.size {
            seg.mem_size - seg.size
        } else {
            0
        }) as nat,
        |i: int| 0u8,
    )
}

/// Load one segment of the ELF image held in `elf_image`: its file bytes, followed by
/// zeros up to its size in memory.
pub fn load_segment(elf_image: &MemoryRegion, seg: &LoadSegment) -> (r: MemoryRegion)
    requires
        seg.offset + seg.size <= elf_image@.len(),
        seg.mem_size <= usize::MAX,
    ensures
        r.base() == seg.paddr,
        r@ == segment_image(elf_image@, *seg),
{
    let n = elf_image.len_usize();
    let off = seg.offset as usize;
    let size = seg.size as usize;
    let mut v: Vec<u8> = Vec::new();
    let mut i: usize = 0;
    while i < size
        invariant
            n == elf_image@.len(),
            off + size <= elf_image@.len(),
            i <= size,
            v@ == elf_image@.subrange(off as int, off + i),
        decreases size - i,
    {
        v.push(elf_image.byte_at(off + i));
        i = i + 1;
    }
    let ghost file_part = v@;
    let zeros: usize = if seg.mem_size > seg.size {
        (seg.mem_size - seg.size) as usize
    } else {
        0
    };
    let mut k: usize = 0;
    while k < zeros
        invariant
            k <= zeros,
            v@ == file_part + Seq::new(k as nat, |j: int| 0u8),
        decreases zeros - k,
    {
        v.push(0u8);
        assert(v@ =~= file_part + Seq::new((k + 1) as nat, |j: int| 0u8));
        k = k + 1;
    }
    MemoryRegion::from_vec(seg.paddr, v)
}

/// Check the ELF image held in `elf_image` and list its loadable segments in the order
/// they are copied; return them with the entry point, or with why loading stopped.
/// A program header whose address is too low stops loading after the segments before
/// it, which are copied all the same.
pub fn load_elf(elf_image: &MemoryRegion) -> (r: (Vec<LoadSegment>, Result<GuestAddress, ParseError>))
    requires
        elf_load(elf_image@) is Some,
    ensures
        elf_load(elf_image@) == Some((r.0@, r.1)),
{
    let ghost s = elf_image@;
    let total = elf_image.len_usize();
    let m0 = elf_image.read_u8(0);
    let m1 = elf_image.read_u8(1);
    let m2 = elf_image.read_u8(2);
    let m3 = elf_image.read_u8(3);
    if m0 != 127 || m1 != 0x45 || m2 != 0x4C || m3 != 0x46 {
        return (Vec::new(), Err(ParseError::InvalidElfMagicNumber));
    }
    if elf_image.read_u8(5) != 1 {
        return (Vec::new(), Err(ParseError::InvalidElfEndian));
    }
    let class = elf_image.read_u8(4);
    if class == 1 {
        let ehdr = Elf32Header::read_from(elf_image);
        let phoff = ehdr.e_phoff as u64;
        let phnum = ehdr.e_phnum as u64;
        if ehdr.e_phsize as u64 != ELF32_PHDR_SIZE {
            return (Vec::new(), Err(ParseError::InvalidProgramHeaderSize));
        }
        if phoff < ELF32_HEADER_SIZE {
            return (Vec::new(), Err(ParseError::InvalidProgramHeaderOffset));
        }
        if (ehdr.e_entry as u64) < KERNEL_MIN_ADDR {
            return (Vec::new(), Err(ParseError::InvalidEntryAddress));
        }
        let (segs, err) = load_segments32(elf_image, phoff, phnum);
        match err {
            Some(e) => (segs, Err(e)),
            None => (segs, Ok(GuestAddress::Addr32(ehdr.e_entry))),
        }
    } else if class == 2 {
        let ehdr = Elf64Header::read_from(elf_image);
        let phoff = ehdr.e_phoff;
        let phnum = ehdr.e_phnum as u64;
        if ehdr.e_phsize as u64 != ELF64_PHDR_SIZE {
            return (Vec::new(), Err(ParseError::InvalidProgramHeaderSize));
        }
        if phoff < ELF64_HEADER_SIZE {
            return (Vec::new(), Err(ParseError::InvalidProgramHeaderOffset));
        }
        if ehdr.e_entry < KERNEL_MIN_ADDR {
            return (Vec::new(), Err(ParseError::InvalidEntryAddress));
        }
        let (segs, err) = load_segments64(elf_image, phoff, phnum);
        match err {
            Some(e) => (segs, Err(e)),
            None => (segs, Ok(GuestAddress::Addr64(ehdr.e_entry))),
        }
    } else {
        (Vec::new(), Err(ParseError::InvalidArchitecture))
    }
}

} // verus!

verus! {

/// The command line region: the bytes of `cmdlin` and a terminating zero.
pub fn setup_cmdline(cmdlin: &str) -> (r: MemoryRegion)
    ensures
        r.base() == CMD_LINE_ADDR,
        r@ == cmdlin.spec_bytes().push(0u8),
{
    let bytes = cmdlin.as_bytes();
    let mut v: Vec<u8> = Vec::new();
    let mut i: usize = 0;
    while i < bytes.len()
        invariant
            i <= bytes@.len(),
            bytes@ == cmdlin.spec_bytes(),
            v@ == bytes@.subrange(0, i as int),
        decreases bytes@.len() - i,
    {
        v.push(bytes[i]);
        i = i + 1;
    }
    v.push(0u8);
    assert(bytes@.subrange(0, bytes@.len() as int) =~= bytes@);
    MemoryRegion::from_vec(CMD_LINE_ADDR as u64, v)
}

/// The zero page after the image sizes, the boot protocol's loader flags and the
/// command line address are recorded.
pub open spec fn zero_page_set(v: Seq<u8>, kernel_size: int, initrd_size: int) -> Seq<u8> {
    put_le32(
        put_le32(
            put_le16(
                put_le32(put_le32(v, 0x218, INITRD_START as int), 0x21C, initrd_size),
                0x1fc,
                0x0100,
            ),
            0x100,
            kernel_size,
        ),
        0x228,
        CMD_LINE_ADDR as int,
    )
}

/// Record in the zero page where the initrd is, the image sizes, the loader flags and
/// where the command line is.
pub fn setup_zero_page(zero_page: &mut MemoryRegion, kernel_size: u32, initrd_size: u32)
    requires
        old(zero_page)@.len() == 4096,
    ensures
        final(zero_page).base() == old(zero_page).base(),
        final(zero_page)@ == zero_page_set(old(zero_page)@, kernel_size as int, initrd_size as int),
{
    zero_page.write_u32(0x218, INITRD_START);
    zero_page.write_u32(0x21C, initrd_size);
    zero_page.write_u16(0x1fc, 0x0100);
    zero_page.write_u32(0x100, kernel_size);
    zero_page.write_u32(0x228, CMD_LINE_ADDR);
}

/// The directory entry of the file `name` in `root`.
pub open spec fn entry_of_file<T: BlockDevice>(root: &Dir<T>, name: Seq<u8>) -> Seq<u8> {
    exists_result(name, dir_lookup(root, name))->Ok_0.0
}

/// The file `name` is in `root` and can be read whole.
pub open spec fn file_loadable<T: BlockDevice>(root: &Dir<T>, name: Seq<u8>) -> bool {
    let e = entry_of_file(root, name);
    &&& lookup_defined(root, name)
    &&& exists_result(name, dir_lookup(root, name)) is Ok
    &&& root.partition.contents().len() <= usize::MAX
    &&& file_read_ok(root.partition.contents(), root.bpb, entry_cluster(e), le32(e, 0x1C))
}

/// The contents of the file `name` in `root`.
pub open spec fn file_bytes<T: BlockDevice>(root: &Dir<T>, name: Seq<u8>) -> Seq<u8> {
    let e = entry_of_file(root, name);
    file_data(root.partition.contents(), root.bpb, entry_cluster(e), le32(e, 0x1C))
}

/// What `load_items` brings into memory: the kernel image, the initrd and the command
/// line when the configuration names them, and the kernel's size.
pub struct LoadedItems {
    pub kernel: MemoryRegion,
    pub initrd: Option<MemoryRegion>,
    pub cmdline: Option<MemoryRegion>,
    pub kernel_size: usize,
}

fn zeros(n: usize) -> (v: Vec<u8>)
    ensures
        v@ == Seq::new(n as nat, |i: int| 0u8),
{
    let mut v: Vec<u8> = Vec::new();
    let mut i: usize = 0;
    while i < n
        invariant
            i <= n,
            v@ == Seq::new(i as nat, |k: int| 0u8),
        decreases n - i,
    {
        v.push(0u8);
        i = i + 1;
    }
    v
}

fn load_file<'a, T: BlockDevice>(root: &Dir<'a, T>, name: &str, base: u64) -> (r: MemoryRegion)
    requires
        file_loadable(root, name.spec_bytes()),
    ensures
        r.base() == base,
        r@ == file_bytes(root, name.spec_bytes()),
        r@.len() == le32(entry_of_file(root, name.spec_bytes()), 0x1C),
{
    let ghost e = entry_of_file(root, name.spec_bytes());
    match root.open_file(name) {
        Ok(f) => {
            let n = f.len();
            let mut buf = zeros(n);
            let ghost b0 = buf@;
            let res = f.read(buf.as_mut_slice());
            assert(b0.subrange(n as int, n as int) =~= Seq::<u8>::empty());
            proof {
                lemma_file_data_len(root.partition.contents(), root.bpb, entry_cluster(e), le32(e, 0x1C));
            }
            assert(buf@ =~= file_bytes(root, name.spec_bytes()));
            MemoryRegion::from_vec(base, buf)
        },
        Err(_) => {
            assert(false);
            MemoryRegion::from_vec(base, Vec::new())
        },
    }
}

/// Load the kernel, and the initrd and command line when `config` names them, and
/// record them in the zero page.
pub fn load_items<'a, T: BlockDevice>(
    root: &Dir<'a, T>,
    config: &Config,
    zero_page: &mut MemoryRegion,
) -> (r: Result<LoadedItems, FileError>)
    requires
        file_loadable(root, config.kernel.spec_bytes()),
        config.initrd matches Some(n) ==> file_loadable(root, n.spec_bytes()),
        old(zero_page)@.len() == 4096,
    ensures
        r matches Ok(items) && {
            let kernel_len = le32(entry_of_file(root, config.kernel.spec_bytes()), 0x1C);
            let initrd_len = match config.initrd {
                Some(n) => le32(entry_of_file(root, n.spec_bytes()), 0x1C),
                None => 0,
            };
            &&& items.kernel.base() == ELF_START
            &&& items.kernel@ == file_bytes(root, config.kernel.spec_bytes())
            &&& items.kernel_size == kernel_len
            &&& match config.initrd {
                Some(n) => items.initrd matches Some(rd) && rd.base() == INITRD_START && rd@
                    == file_bytes(root, n.spec_bytes()),
                None => items.initrd is None,
            }
            &&& match config.cmdlin {
                Some(c) => items.cmdline matches Some(cl) && cl.base() == CMD_LINE_ADDR && cl@
                    == c.spec_bytes().push(0u8),
                None => items.cmdline is None,
            }
            &&& final(zero_page)@ == zero_page_set(old(zero_page)@, kernel_len, initrd_len)
        },
{
    let kernel = load_file(root, config.kernel, ELF_START as u64);
    let kernel_size = kernel.len_usize();
    let mut initrd_size: u32 = 0;
    let initrd = match config.initrd {
        Some(name) => {
            let rd = load_file(root, name, INITRD_START as u64);
            initrd_size = rd.len_usize() as u32;
            Some(rd)
        },
        None => None,
    };
    let cmdline = match config.cmdlin {
        Some(c) => Some(setup_cmdline(c)),
        None => None,
    };
    setup_zero_page(zero_page, kernel_size as u32, initrd_size);
    Ok(LoadedItems { kernel, initrd, cmdline, kernel_size })
}

} // verus!
