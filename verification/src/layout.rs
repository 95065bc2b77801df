//! Where each stage and each piece of boot data lives in physical memory.
use vstd::prelude::*;

verus! {

/// Segment into which the BIOS loads the first sector.
pub const INIT_SEG: u32 = 0x07C0;
/// Offset (in `INIT_SEG`) of the second stage's parameters.
pub const STAGE2_LOAD: u32 = 0x200;
/// Offset (in `INIT_SEG`) of the second stage's entry.
pub const STAGE2_START: u32 = 0x206;
/// Offset (in `INIT_SEG`) at which the third stage is loaded.
pub const STAGE3_START: u32 = 0x6000;
/// Offset (in `INIT_SEG`) of the buffer that BIOS disk reads fill.
pub const TRACK_BUFFER: u32 = 0xD000;
/// Size in bytes of the track buffer.
pub const TRACK_BUF_SIZE: u32 = 0x2000;
/// Where the kernel command line is handed over.
pub const CMD_LINE_ADDR: u32 = 0x0002_0000;
/// Where the fourth stage is loaded.
pub const STAGE4_START: u32 = 0x0003_0000;
/// Stack of the protected-mode stages.
pub const PROT_STACK: u32 = 0x9a000;
/// Where the long-mode page tables are built.
pub const PGTABLE_START: u64 = 0x1000;
/// Where the kernel image is loaded.
pub const ELF_START: u32 = 0x0010_0000;
/// Where the compressed kernel image is loaded.
pub const IMAGE_START: u32 = 0x0350_0000;
/// Where the initial ramdisk is loaded.
pub const INITRD_START: u32 = 0x0560_0000;
/// First byte of the heap.
pub const HEAP_START: u32 = 0x0760_0000;
/// Last byte of the heap.
pub const HEAP_END: u32 = 0x07FF_FFFF;
/// Offset in the zero page of the kernel size field.
pub const KERNEL_SIZE: u32 = 0x100;

// The loader that decompresses a bzip2 kernel image before starting it keeps its
// initrd and its decompressor's heap lower in memory.

/// Where that loader puts the compressed kernel image.
pub const BZ_IMAGE_START: u32 = 0x0060_0000;
/// Where that loader puts the initial ramdisk.
pub const BZ_INITRD_START: u32 = 0x0090_0000;
/// First byte of that loader's heap.
pub const BZ_HEAP_START: u32 = 0x0160_0000;
/// End of that loader's heap.
pub const BZ_HEAP_END: u32 = 0x0190_0000;

} // verus!
