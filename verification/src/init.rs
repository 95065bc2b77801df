//! The third stage's preparation of the zero page, the block of boot parameters that
//! a Linux kernel reads, and of the command line next to it.
//!
//! What the BIOS reports (memory maps, keyboard flags, speed-step data) is passed in
//! by the caller, which makes the BIOS calls.
use vstd::prelude::*;
use crate::layout::{BZ_INITRD_START, KERNEL_SIZE};
use crate::mem::{MemoryRegion, le16, put_le16, put_le32, put_le64};

verus! {

/// Size in bytes of the zero page.
pub const ZERO_PAGE_SIZE: u64 = 0x1000;
/// Size in bytes of the command line area.
pub const CMDLINE_SIZE: u64 = 120;
/// Most memory map entries that the zero page holds.
pub const E820_MAX_ENTRIES_ZEROPAGE: usize = 128;
/// "SMAP", the signature that the memory map service returns.
pub const SMAP: u32 = 0x534d4150;

/// The parameters that the second stage passes on to the third.
pub struct ParamTable {
    pub start_lba: u32,
    pub sectors: u32,
    pub ret_addr: u32,
    pub prot_stack: u32,
}

/// One half of the zero page.
#[derive(Debug, Clone, Copy, PartialEq, Eq, Structural)]
pub enum Pages {
    FirstHalf,
    SecondHalf,
}

/// The zero page after the bytes `from .. from + n` are cleared.
pub open spec fn zeroed(v: Seq<u8>, from: int, n: int) -> Seq<u8> {
    Seq::new(v.len(), |j: int| if from <= j < from + n { 0u8 } else { v[j] })
}

/// Where the half `p` of the zero page starts.
pub open spec fn half_start(p: Pages) -> int {
    match p {
        Pages::FirstHalf => 0,
        Pages::SecondHalf => 0x800,
    }
}

impl Pages {
    /// Clear this half of the zero page.
    pub fn clear(&self, zero_page: &mut MemoryRegion)
        requires
            old(zero_page)@.len() == ZERO_PAGE_SIZE,
        ensures
            final(zero_page).base() == old(zero_page).base(),
        final(zero_page)@.len() == old(zero_page)@.len(),
            final(zero_page)@ == zeroed(old(zero_page)@, half_start(*self), 0x800),
    {
        let from: usize = match self {
            Pages::FirstHalf => 0x000,
            Pages::SecondHalf => 0x800,
        };
        let ghost v0 = zero_page@;
        let mut i: usize = 0;
        while i < 0x800
            invariant
                from == half_start(*self),
                v0 == old(zero_page)@,
                v0.len() == ZERO_PAGE_SIZE,
                i <= 0x800,
                zero_page.base() == old(zero_page).base(),
                zero_page@ == zeroed(v0, from as int, i as int),
            decreases 0x800 - i,
        {
            zero_page.write_u8((from + i) as u64, 0);
            assert(zero_page@ =~= zeroed(v0, from as int, i + 1));
            i = i + 1;
        }
    }
}

/// The command line area after `cmd_line` is copied to its start.
pub open spec fn with_cmdline(v: Seq<u8>, cmd_line: Seq<u8>) -> Seq<u8> {
    cmd_line + v.subrange(cmd_line.len() as int, v.len() as int)
}

/// Copy `cmd_line` to the start of the command line area.
pub fn set_cmdline(cmdline_region: &mut MemoryRegion, cmd_line: &[u8])
    requires
        old(cmdline_region)@.len() == CMDLINE_SIZE,
        cmd_line@.len() <= CMDLINE_SIZE,
    ensures
        final(cmdline_region).base() == old(cmdline_region).base(),
        final(cmdline_region)@ == with_cmdline(old(cmdline_region)@, cmd_line@),
{
    let ghost v0 = cmdline_region@;
    let mut i: usize = 0;
    while i < cmd_line.len()
        invariant
            v0 == old(cmdline_region)@,
            v0.len() == CMDLINE_SIZE,
            cmd_line@.len() <= CMDLINE_SIZE,
            i <= cmd_line@.len(),
            cmdline_region.base() == old(cmdline_region).base(),
            cmdline_region@ == cmd_line@.subrange(0, i as int) + v0.subrange(i as int, v0.len() as int),
        decreases cmd_line@.len() - i,
    {
        cmdline_region.write_u8(i as u64, cmd_line[i]);
        assert(cmdline_region@ =~= cmd_line@.subrange(0, i + 1) + v0.subrange(i + 1, v0.len() as int));
        i = i + 1;
    }
    assert(cmd_line@.subrange(0, cmd_line@.len() as int) =~= cmd_line@);
}

/// The zero page after the kernel and initrd sizes are recorded.
pub open spec fn image_set(v: Seq<u8>, kernel_size: int, initrd_size: int) -> Seq<u8> {
    put_le32(put_le32(put_le32(v, 0x218, BZ_INITRD_START as int), 0x21C, initrd_size), 0x100, kernel_size)
}

/// Record where the initrd is and how large it and the kernel are.
pub fn set_image(zero_page: &mut MemoryRegion, kernel_size: u32, initrd_size: u32)
    requires
        old(zero_page)@.len() == ZERO_PAGE_SIZE,
    ensures
        final(zero_page).base() == old(zero_page).base(),
        final(zero_page)@.len() == old(zero_page)@.len(),
        final(zero_page)@ == image_set(old(zero_page)@, kernel_size as int, initrd_size as int),
{
    zero_page.write_u32(0x218, BZ_INITRD_START);
    zero_page.write_u32(0x21C, initrd_size);
    zero_page.write_u32(KERNEL_SIZE as u64, kernel_size);
}

/// The zero page after the boot protocol fields are set.
pub open spec fn version_set(v: Seq<u8>) -> Seq<u8> {
    put_le32(
        put_le32(put_le16(put_le32(put_le16(v, 0x1FE, 0xaa55), 0x202, 0x5372_6448), 0x206, 0x020C).update(0x210, 0xffu8), 0x230, 0x0100_0000),
        0x230,
        0x0100_0000,
    )
}

/// Set the boot flag, the header magic, the protocol version 2.12, the loader type
/// and the kernel alignment.
pub fn set_version(zero_page: &mut MemoryRegion)
    requires
        old(zero_page)@.len() == ZERO_PAGE_SIZE,
    ensures
        final(zero_page).base() == old(zero_page).base(),
        final(zero_page)@.len() == old(zero_page)@.len(),
        final(zero_page)@ == version_set(old(zero_page)@),
{
    let kernel_boot_flag_magic: u16 = 0xaa55;
    let kernel_hdr_magic: u32 = 0x5372_6448;
    let kernel_loader_other: u8 = 0xff;
    let kernel_min_alignment_bytes: u32 = 0x0100_0000;
    zero_page.write_u16(0x1FE, kernel_boot_flag_magic);
    zero_page.write_u32(0x202, kernel_hdr_magic);
    zero_page.write_u16(0x206, 0x020C);
    zero_page.write_u8(0x210, kernel_loader_other);
    zero_page.write_u32(0x230, kernel_min_alignment_bytes);
    proof {
        let v = old(zero_page)@;
        let a = put_le32(put_le16(put_le32(put_le16(v, 0x1FE, 0xaa55), 0x202, 0x5372_6448), 0x206, 0x020C).update(0x210, 0xffu8), 0x230, 0x0100_0000);
        assert(put_le32(a, 0x230, 0x0100_0000) =~= a);
    }
}

/// Record the keyboard flags `flags` that the BIOS reported.
pub fn set_keyboard(zero_page: &mut MemoryRegion, flags: u8)
    requires
        old(zero_page)@.len() == ZERO_PAGE_SIZE,
    ensures
        final(zero_page).base() == old(zero_page).base(),
        final(zero_page)@.len() == old(zero_page)@.len(),
        final(zero_page)@ == old(zero_page)@.update(0x1eb, flags),
{
    zero_page.write_u8(0x1eb, flags);
}

/// What the BIOS reported about Intel SpeedStep.
#[derive(Debug, Clone, Copy)]
pub struct IstInfo {
    pub signature: u32,
    pub command: u32,
    pub event: u32,
    pub perf_level: u32,
}

/// The zero page after the SpeedStep information is recorded.
pub open spec fn ist_set(v: Seq<u8>, i: IstInfo) -> Seq<u8> {
    put_le32(put_le32(put_le32(put_le32(v, 0x60, i.signature as int), 0x64, i.command as int), 0x68, i.event as int), 0x6c, i.perf_level as int)
}

/// Record the SpeedStep information.
pub fn query_ist(zero_page: &mut MemoryRegion, ist: IstInfo)
    requires
        old(zero_page)@.len() == ZERO_PAGE_SIZE,
    ensures
        final(zero_page).base() == old(zero_page).base(),
        final(zero_page)@.len() == old(zero_page)@.len(),
        final(zero_page)@ == ist_set(old(zero_page)@, ist),
{
    zero_page.write_u32(0x60, ist.signature);
    zero_page.write_u32(0x64, ist.command);
    zero_page.write_u32(0x68, ist.event);
    zero_page.write_u32(0x6c, ist.perf_level);
}

/// One entry of the BIOS memory map.
#[derive(Debug, Clone, Copy)]
pub struct E820Entry {
    pub addr: u64,
    pub size: u64,
    pub entry_type: u32,
}

/// One answer of the BIOS memory map service: the carry flag in `flag`, the
/// signature in `smap`, the continuation value in `next` and the entry.
#[derive(Debug, Clone, Copy)]
pub struct E820Reply {
    pub flag: u32,
    pub smap: u32,
    pub next: u32,
    pub entry: E820Entry,
}

/// After the answer `r` to the query that would fill entry `count`, the value to
/// query with next, or `None` when the scan is over.
pub open spec fn e820_continues(r: E820Reply, count: int) -> bool {
    r.flag & 1 == 0 && r.smap == SMAP && r.next != 0 && count + 1 < E820_MAX_ENTRIES_ZEROPAGE
}

/// The decision of the memory map scan after the answer `r` to the query that would
/// fill entry `count`: `Some` of the value to query with next, or `None` when the
/// scan is over.
pub fn e820_next(r: &E820Reply, count: usize) -> (q: Option<u32>)
    requires
        count < E820_MAX_ENTRIES_ZEROPAGE,
    ensures
        q is Some <==> e820_continues(*r, count as int),
        q is Some ==> q->Some_0 == r.next,
{
    if r.flag & 1 != 0 || r.smap != SMAP {
        return None;
    }
    if r.next != 0 && count + 1 < E820_MAX_ENTRIES_ZEROPAGE {
        Some(r.next)
    } else {
        None
    }
}

/// How the scan over the answers `rs` ends, from answer `k` on: the number of entries
/// written to the table and the count recorded. The scan also ends when the answers
/// run out.
pub open spec fn e820_scan(rs: Seq<E820Reply>, k: int) -> (int, int)
    decreases rs.len() - k,
{
    if k < 0 || k >= rs.len() {
        (k, k)
    } else if rs[k].flag & 1 != 0 {
        (k, k)
    } else if rs[k].smap != SMAP {
        (k, 0)
    } else if rs[k].next != 0 && k + 1 < E820_MAX_ENTRIES_ZEROPAGE {
        e820_scan(rs, k + 1)
    } else {
        (k + 1, k + 1)
    }
}

/// The zero page with entry `j` of the memory map table holding `e`.
pub open spec fn put_entry(v: Seq<u8>, j: int, e: E820Entry) -> Seq<u8> {
    put_le32(put_le64(put_le64(v, 0x2d0 + 20 * j, e.addr as int), 0x2d0 + 20 * j + 8, e.size as int), 0x2d0 + 20 * j + 16, e.entry_type as int)
}

/// The zero page with the first `n` entries of the memory map table written.
pub open spec fn put_entries(v: Seq<u8>, rs: Seq<E820Reply>, n: int) -> Seq<u8>
    decreases n,
{
    if n <= 0 {
        v
    } else {
        put_entry(put_entries(v, rs, n - 1), n - 1, rs[n - 1].entry)
    }
}

/// The zero page after the memory map scan whose answers were `rs`.
pub open spec fn e820_set(v: Seq<u8>, rs: Seq<E820Reply>) -> Seq<u8> {
    let (written, count) = e820_scan(rs, 0);
    put_entries(v, rs, written).update(0x1e8, count as u8)
}

proof fn lemma_e820_scan(rs: Seq<E820Reply>, k: int)
    requires
        0 <= k <= E820_MAX_ENTRIES_ZEROPAGE,
        k < E820_MAX_ENTRIES_ZEROPAGE || k >= rs.len(),
    ensures
        k <= e820_scan(rs, k).0 <= E820_MAX_ENTRIES_ZEROPAGE,
        0 <= e820_scan(rs, k).1 <= e820_scan(rs, k).0,
    decreases rs.len() - k,
{
    if 0 <= k < rs.len() && rs[k].flag & 1 == 0 && rs[k].smap == SMAP && rs[k].next != 0 && k + 1
        < E820_MAX_ENTRIES_ZEROPAGE {
        lemma_e820_scan(rs, k + 1);
    }
}

/// Write the memory map that the BIOS reported, answer by answer, to the zero page,
/// with the number of entries.
pub fn detect_memory_e820(zero_page: &mut MemoryRegion, replies: &[E820Reply])
    requires
        old(zero_page)@.len() == ZERO_PAGE_SIZE,
    ensures
        final(zero_page).base() == old(zero_page).base(),
        final(zero_page)@.len() == old(zero_page)@.len(),
        final(zero_page)@ == e820_set(old(zero_page)@, replies@),
{
    let ghost rs = replies@;
    let ghost v0 = zero_page@;
    let mut count: usize = 0;
    let mut recorded: usize = 0;
    let mut done = false;
    proof {
        lemma_e820_scan(rs, 0);
    }
    while !done
        invariant
            rs == replies@,
            v0 == old(zero_page)@,
            v0.len() == ZERO_PAGE_SIZE,
            count <= E820_MAX_ENTRIES_ZEROPAGE,
            count <= rs.len(),
            !done ==> count < E820_MAX_ENTRIES_ZEROPAGE,
            !done ==> e820_scan(rs, count as int) == e820_scan(rs, 0),
            done ==> e820_scan(rs, 0) == (count as int, recorded as int),
            recorded <= count,
            zero_page.base() == old(zero_page).base(),
            zero_page@.len() == ZERO_PAGE_SIZE,
            zero_page@ == put_entries(v0, rs, count as int),
        decreases rs.len() - count + (if done { 0int } else { 1int }),
    {
        proof {
            lemma_e820_scan(rs, count as int);
        }
        if count >= replies.len() {
            recorded = count;
            done = true;
        } else {
            let r = replies[count];
            if r.flag & 1 != 0 {
                recorded = count;
                done = true;
            } else if r.smap != SMAP {
                recorded = 0;
                done = true;
            } else {
                let at = (0x2d0 + 20 * count) as u64;
                zero_page.write_u64(at, r.entry.addr);
                zero_page.write_u64(at + 8, r.entry.size);
                zero_page.write_u32(at + 16, r.entry.entry_type);
                count = count + 1;
                if r.next != 0 && count < E820_MAX_ENTRIES_ZEROPAGE {
                } else {
                    recorded = count;
                    done = true;
                }
            }
        }
    }
    zero_page.write_u8(0x1e8, recorded as u8);
}

/// What the BIOS reported through its extended memory size service: kilobytes
/// between 1 MiB and 16 MiB in `ax`, 64 KiB blocks above 16 MiB in `bx`, and the
/// carry flag in `flag`.
#[derive(Debug, Clone, Copy)]
pub struct E801Reply {
    pub ax: u16,
    pub bx: u16,
    pub flag: u32,
}

/// The extended memory size that the answer `r` gives, if any: the blocks above
/// 16 MiB count only when the memory below is complete.
pub open spec fn e801_size(r: E801Reply) -> Option<int> {
    if r.flag & 1 != 0 || r.ax > 15 * 1024 {
        None
    } else if r.ax == 15 * 1024 {
        Some((r.bx * 64) % 65536 + r.ax)
    } else {
        Some(r.ax as int)
    }
}

/// Record the extended memory size of the answer `r`.
pub fn detect_memory_e801(zero_page: &mut MemoryRegion, r: E801Reply)
    requires
        old(zero_page)@.len() == ZERO_PAGE_SIZE,
        r.flag & 1 == 0 && r.ax == 15 * 1024 ==> (r.bx * 64) % 65536 + r.ax <= u16::MAX,
    ensures
        final(zero_page).base() == old(zero_page).base(),
        final(zero_page)@.len() == old(zero_page)@.len(),
        final(zero_page)@ == (match e801_size(r) {
            None => old(zero_page)@,
            Some(n) => put_le32(old(zero_page)@, 0x1E0, n),
        }),
{
    let kb01size = r.ax;
    let kb64size = r.bx;
    if r.flag & 1 != 0 {
        return;
    }
    if kb01size > 15 * 1024 {
        return;
    } else if kb01size == 15 * 1024 {
        assert((kb64size << 6u16) == (kb64size * 64) % 65536) by (bit_vector);
        zero_page.write_u32(0x1E0, ((kb64size << 6) + kb01size) as u32);
    } else {
        zero_page.write_u32(0x1E0, kb01size as u32);
    }
}

/// Record the extended memory size in kilobytes reported by the oldest BIOS service.
pub fn detect_memory_88(zero_page: &mut MemoryRegion, size: u16)
    requires
        old(zero_page)@.len() == ZERO_PAGE_SIZE,
    ensures
        final(zero_page).base() == old(zero_page).base(),
        final(zero_page)@.len() == old(zero_page)@.len(),
        final(zero_page)@ == put_le16(old(zero_page)@, 0x002, size as int),
{
    assert(size & 0xFFFF == size) by (bit_vector);
    zero_page.write_u16(0x002, size & 0xFFFF);
}

/// What the BIOS reported about the machine, as the third stage asks for it.
pub struct BiosInfo {
    pub e820: Vec<E820Reply>,
    pub e801: E801Reply,
    pub mem88: u16,
    pub keyboard: u8,
    pub ist: IstInfo,
}

/// The zero page after the memory sizes are recorded.
pub open spec fn mem_size_set(v: Seq<u8>, e820: Seq<E820Reply>, e801: E801Reply, mem88: u16) -> Seq<u8> {
    let a = e820_set(v, e820);
    let b = match e801_size(e801) {
        None => a,
        Some(n) => put_le32(a, 0x1E0, n),
    };
    put_le16(b, 0x002, mem88 as int)
}

/// Record the memory map and the memory sizes, in the order the BIOS is asked.
pub fn set_mem_size(zero_page: &mut MemoryRegion, e820: &[E820Reply], e801: E801Reply, mem88: u16)
    requires
        old(zero_page)@.len() == ZERO_PAGE_SIZE,
        e801.flag & 1 == 0 && e801.ax == 15 * 1024 ==> (e801.bx * 64) % 65536 + e801.ax <= u16::MAX,
    ensures
        final(zero_page).base() == old(zero_page).base(),
        final(zero_page)@.len() == old(zero_page)@.len(),
        final(zero_page)@ == mem_size_set(old(zero_page)@, e820@, e801, mem88),
{
    detect_memory_e820(zero_page, e820);
    detect_memory_e801(zero_page, e801);
    detect_memory_88(zero_page, mem88);
}

/// The zero page after the third stage's preparation.
pub open spec fn setup_zero(v: Seq<u8>, kernel_size: int, initrd_size: int, bios: BiosInfo) -> Seq<u8> {
    let a = zeroed(zeroed(v, 0, 0x800), 0x800, 0x800);
    let b = mem_size_set(a, bios.e820@, bios.e801, bios.mem88).update(0x1eb, bios.keyboard);
    version_set(image_set(ist_set(b, bios.ist), kernel_size * 512, initrd_size * 512))
}

/// Prepare the zero page and the command line for a kernel of `kernel_size` and an
/// initrd of `initrd_size` sectors: clear the zero page, copy the command line,
/// record what the BIOS reported, the image sizes and the boot protocol fields.
pub fn setup(
    zero_page: &mut MemoryRegion,
    cmdline_region: &mut MemoryRegion,
    kernel_size: u16,
    initrd_size: u16,
    cmd_line: &[u8],
    bios: &BiosInfo,
)
    requires
        old(zero_page)@.len() == ZERO_PAGE_SIZE,
        old(cmdline_region)@.len() == CMDLINE_SIZE,
        cmd_line@.len() <= CMDLINE_SIZE,
        bios.e801.flag & 1 == 0 && bios.e801.ax == 15 * 1024 ==> (bios.e801.bx * 64) % 65536
            + bios.e801.ax <= u16::MAX,
    ensures
        final(zero_page).base() == old(zero_page).base(),
        final(zero_page)@.len() == old(zero_page)@.len(),
        final(cmdline_region).base() == old(cmdline_region).base(),
        final(zero_page)@ == setup_zero(old(zero_page)@, kernel_size as int, initrd_size as int, *bios),
        final(cmdline_region)@ == with_cmdline(old(cmdline_region)@, cmd_line@),
{
    Pages::FirstHalf.clear(zero_page);
    set_cmdline(cmdline_region, cmd_line);
    Pages::SecondHalf.clear(zero_page);
    set_mem_size(zero_page, bios.e820.as_slice(), bios.e801, bios.mem88);
    set_keyboard(zero_page, bios.keyboard);
    query_ist(zero_page, bios.ist);
    set_image(zero_page, kernel_size as u32 * 512, initrd_size as u32 * 512);
    set_version(zero_page);
}


/// Save the cursor position `curs` (row in the high byte, column in the low byte) that
/// the BIOS reported, in the first two bytes of the zero page.
pub fn set_cur(zero_page: &mut MemoryRegion, curs: u16)
    requires
        old(zero_page)@.len() == ZERO_PAGE_SIZE,
    ensures
        final(zero_page).base() == old(zero_page).base(),
        final(zero_page)@ == put_le16(old(zero_page)@, 0, curs as int),
{
    zero_page.write_u16(0x00, curs);
}

/// The saved cursor position, to hand back to the BIOS.
pub fn re_cur(zero_page: &MemoryRegion) -> (r: u16)
    requires
        zero_page@.len() == ZERO_PAGE_SIZE,
    ensures
        r == le16(zero_page@, 0),
{
    zero_page.read_u16(0x00)
}

/// Law: the memory map recorded in the zero page never has more entries than the
/// table holds, and never counts more entries than were written.
pub proof fn lemma_e820_count_bounded(rs: Seq<E820Reply>)
    ensures
        0 <= e820_scan(rs, 0).1 <= e820_scan(rs, 0).0 <= E820_MAX_ENTRIES_ZEROPAGE,
{
    lemma_e820_scan(rs, 0);
}

} // verus!
