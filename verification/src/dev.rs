//! Disk access through the BIOS: disk address packets, the chunks in which an
//! image is brought in through the track buffer, and the search of the partition
//! records for the boot partition.
//!
//! The BIOS calls themselves are made by the caller; this module decides what to ask
//! for and what an answer means.
use vstd::prelude::*;
use crate::layout::{BZ_IMAGE_START, BZ_INITRD_START, INIT_SEG, STAGE3_START, STAGE4_START, TRACK_BUFFER};
use crate::mem::{le16, le32};
use crate::fs::fat32::read_le_u32_at;

verus! {

/// A disk address packet for the extended read service of the BIOS.
#[derive(Debug, Clone, Copy, PartialEq, Eq)]
pub struct Dap {
    pub size: u8,
    pub zero: u8,
    pub sectors: u16,
    pub buffer: u32,
    pub startlba: u64,
}

/// Most sectors brought in by one transfer.
pub const MAX_SECTOR: u16 = 16;
/// Bytes in a sector.
pub const SECTOR_SIZE: u16 = 512;

/// `buffer` as a real-mode far pointer to the track buffer.
pub open spec fn track_buffer_pointer() -> u32 {
    TRACK_BUFFER | (0x07C0u32 << 16u32)
}

impl Dap {
    /// A packet that reads `sectors` sectors from `startlba` into `buffer`.
    pub fn new(sectors: u16, buffer: u32, startlba: u64) -> (r: Self)
        ensures
            r.size == 0x10,
            r.zero == 0,
            r.sectors == sectors,
            r.buffer == buffer,
            r.startlba == startlba,
    {
        Dap { size: 0x10, zero: 0, sectors, buffer, startlba }
    }

    /// What the status word `ret` returned by the BIOS disk service means: the
    /// transfer failed when its high byte is not zero.
    pub fn hd_status(ret: u16) -> (r: Result<(), &'static str>)
        ensures
            r is Ok <==> ret & 0xff00 == 0,
            r is Err ==> r->Err_0@ == "X"@,
    {
        if ret & 0xff00 != 0 {
            Err("X")
        } else {
            Ok(())
        }
    }
}

/// The packet that reads `secs` sectors from `start_lba` into the track buffer.
pub fn read_to_trackbuf(secs: u16, start_lba: u64) -> (r: Dap)
    ensures
        r.size == 0x10,
        r.zero == 0,
        r.sectors == secs,
        r.buffer == track_buffer_pointer(),
        r.startlba == start_lba,
{
    Dap::new(secs, TRACK_BUFFER | (0x07C0 << 16), start_lba)
}

/// One step of bringing an image in: read `sectors` sectors from `lba` into the
/// track buffer, then copy them to `dst`.
#[derive(Debug, Clone, Copy, PartialEq, Eq)]
pub struct ImageChunk {
    pub sectors: u16,
    pub lba: u32,
    pub dst: u32,
}

/// The `i`-th chunk of an image of `size` sectors read from `lba` to `dst`.
pub open spec fn image_chunk(size: int, dst: int, lba: int, i: int) -> ImageChunk {
    let rest = size - 16 * i;
    ImageChunk {
        sectors: (if rest > 16 {
            16
        } else {
            rest
        }) as u16,
        lba: (lba + 16 * i) as u32,
        dst: (dst + 8192 * i) as u32,
    }
}

/// The number of chunks of an image of `size` sectors.
pub open spec fn image_chunks(size: int) -> int {
    (size + 15) / 16
}

/// The chunks in which an image of `image_size` sectors starting at sector
/// `start_lba` is copied to `dst`, at most `MAX_SECTOR` sectors at a time.
pub fn read_image(image_size: u16, dst: u32, start_lba: u16) -> (plan: Vec<ImageChunk>)
    requires
        start_lba + image_size <= u16::MAX,
        dst + 512 * image_size <= u32::MAX,
    ensures
        plan@.len() == image_chunks(image_size as int),
        forall|i: int|
            0 <= i < plan@.len() ==> plan@[i] == image_chunk(
                image_size as int,
                dst as int,
                start_lba as int,
                i,
            ),
{
    let mut lba = start_lba;
    let mut left = image_size;
    let mut to = dst;
    let mut plan: Vec<ImageChunk> = Vec::new();
    let mut load_sectors: u16 = MAX_SECTOR;
    while left > 0
        invariant
            start_lba + image_size <= u16::MAX,
            dst + 512 * image_size <= u32::MAX,
            left <= image_size,
            left > 0 ==> image_size - left == 16 * plan@.len(),
            left > 0 ==> load_sectors == 16,
            left > 0 ==> lba == start_lba + 16 * plan@.len(),
            left > 0 ==> to == dst + 8192 * plan@.len(),
            plan@.len() <= image_chunks(image_size as int),
            left == 0 ==> plan@.len() == image_chunks(image_size as int),
            left > 0 ==> plan@.len() < image_chunks(image_size as int),
            forall|i: int|
                0 <= i < plan@.len() ==> plan@[i] == image_chunk(
                    image_size as int,
                    dst as int,
                    start_lba as int,
                    i,
                ),
        decreases left,
    {
        if load_sectors > left {
            load_sectors = left;
        }
        let c = ImageChunk { sectors: load_sectors, lba: lba as u32, dst: to };
        assert(c == image_chunk(image_size as int, dst as int, start_lba as int, plan@.len() as int));
        plan.push(c);
        let ghost n = plan@.len() as int;
        left = left - load_sectors;
        lba = lba + load_sectors;
        to = to + 512 * load_sectors as u32;
        proof {
            if left > 0 {
                assert(image_size - 16 * n > 0);
                assert(n < image_chunks(image_size as int));
            } else {
                assert(n == image_chunks(image_size as int));
            }
        }
    }
    plan
}

/// Where the second stage puts the third and fourth stages: the chunks of each, or
/// why it cannot.
pub fn load_images(slba: u16, stage3_size: u16, stage4_size: u16) -> (r: Result<
    (Vec<ImageChunk>, Vec<ImageChunk>),
    &'static str,
>)
    requires
        slba + stage3_size + stage4_size <= u16::MAX,
    ensures
        stage3_size == 0 <==> r is Err,
        r is Err ==> r->Err_0@ == "stage3 is not found"@,
        r matches Ok((s3, s4)) ==> {
            &&& s3@.len() == image_chunks(stage3_size as int)
            &&& forall|i: int|
                0 <= i < s3@.len() ==> s3@[i] == image_chunk(
                    stage3_size as int,
                    (INIT_SEG << 4) + STAGE3_START,
                    slba as int,
                    i,
                )
            &&& s4@.len() == image_chunks(stage4_size as int)
            &&& forall|i: int|
                0 <= i < s4@.len() ==> s4@[i] == image_chunk(
                    stage4_size as int,
                    STAGE4_START as int,
                    slba + stage3_size,
                    i,
                )
        },
{
    if stage3_size == 0 {
        return Err("stage3 is not found");
    }
    assert((INIT_SEG << 4) + STAGE3_START == 0xDC00) by (bit_vector);
    let s3 = read_image(stage3_size, (INIT_SEG << 4) + STAGE3_START, slba);
    let s4 = read_image(stage4_size, STAGE4_START, slba + stage3_size);
    Ok((s3, s4))
}

/// The descriptor of a 4 GiB data segment whose base is `a`.
pub open spec fn data_descriptor(a: u32) -> u64 {
    (0x00CF9200u64 << 32u64) | ((a as u64 & 0xFF000000u64) << 32u64) | ((a as u64 & 0x00FFFFFFu64)
        << 16u64) | 0xFFFFu64
}

/// The descriptor table that the BIOS block move service takes to copy from `src`
/// to `dst`.
pub fn copy_block(src: u32, dst: u32) -> (gdt: [u64; 6])
    ensures
        gdt@ == seq![0u64, 0u64, data_descriptor(src), data_descriptor(dst), 0u64, 0u64],
{
    let mut gdt: [u64; 6] = [0; 6];
    gdt[2] = 0x00CF9200u64 << 32u64 | (src as u64 & 0xFF000000u64) << 32u64 | (src as u64
        & 0x00FFFFFFu64) << 16u64 | 0xFFFFu64;
    gdt[3] = 0x00CF9200u64 << 32u64 | (dst as u64 & 0xFF000000u64) << 32u64 | (dst as u64
        & 0x00FFFFFFu64) << 16u64 | 0xFFFFu64;
    assert(gdt@ =~= seq![0u64, 0u64, data_descriptor(src), data_descriptor(dst), 0u64, 0u64]);
    gdt
}

/// What the status word of the block move service means.
pub fn copy_block_status(ret: u16) -> (r: Result<(), &'static str>)
    ensures
        r is Ok <==> ret & 0xff00 == 0,
        r is Err ==> r->Err_0@ == "Memory transfer error!"@,
{
    if ret & 0xff00 != 0 {
        Err("Memory transfer error!")
    } else {
        Ok(())
    }
}


/// Cylinder, head and sector of a partition boundary.
#[derive(Debug, Clone, Copy)]
pub struct Chs(pub u8, pub u8, pub u8);

/// An entry of the partition table of a master or extended boot record.
#[derive(Debug, Clone, Copy)]
pub struct PartitionTable {
    pub boot: u8,
    pub start_chs: Chs,
    pub ptype: u8,
    pub end_chs: Chs,
    pub start_lba: u32,
    pub size: u32,
}

/// A master or extended boot record: boot code, four partition entries, signature.
#[derive(Debug)]
pub struct DiskRecord {
    pub bootstrap: [u8; 446],
    pub table: [PartitionTable; 4],
    pub sign: u16,
}

/// The partition entry whose 16 bytes start at `at` in `s`.
pub open spec fn entry_of(s: Seq<u8>, at: int) -> PartitionTable {
    PartitionTable {
        boot: s[at],
        start_chs: Chs(s[at + 1], s[at + 2], s[at + 3]),
        ptype: s[at + 4],
        end_chs: Chs(s[at + 5], s[at + 6], s[at + 7]),
        start_lba: le32(s, at + 8) as u32,
        size: le32(s, at + 12) as u32,
    }
}

/// A partition type that holds further partition records.
pub open spec fn is_extended(t: u8) -> bool {
    t == 0x05 || t == 0x85 || t == 0x0f
}

/// The first entry marked bootable, or 4 when there is none.
pub open spec fn boot_entry(t: Seq<PartitionTable>) -> int {
    if t[0].boot != 0 {
        0
    } else if t[1].boot != 0 {
        1
    } else if t[2].boot != 0 {
        2
    } else if t[3].boot != 0 {
        3
    } else {
        4
    }
}

/// The last entry of an extended type; 0 when there is none (the first entry is
/// never taken as the link to the next record).
pub open spec fn ext_entry(t: Seq<PartitionTable>) -> int {
    if is_extended(t[3].ptype) {
        3
    } else if is_extended(t[2].ptype) {
        2
    } else if is_extended(t[1].ptype) {
        1
    } else {
        0
    }
}

/// Where the walk along the chain of extended boot records stands: how many records
/// have been looked at and the sector of the first extended record.
#[derive(Debug, Clone, Copy)]
pub struct LbaSearch {
    pub records: u16,
    pub ebr_base: u32,
}

/// The outcome of one step of the search for the boot partition.
#[derive(Debug)]
pub enum LbaStep {
    /// The boot partition starts at this sector.
    Found(u32),
    /// Read the record at this sector, then go on with this search.
    Read(u32, LbaSearch),
    /// The search failed.
    Failed(&'static str),
}

/// Most records that the search looks at.
pub const MAX_RECORD: u16 = 33;

/// The sector of the next record when the search `s` stands at a record with table `t`.
pub open spec fn next_record_lba(t: Seq<PartitionTable>, s: LbaSearch) -> int {
    let at = t[ext_entry(t)].start_lba;
    if s.records < 2 {
        at as int
    } else {
        at + s.ebr_base
    }
}

/// The search after the record with table `t` has been linked to the next one.
pub open spec fn next_search(t: Seq<PartitionTable>, s: LbaSearch) -> LbaSearch {
    LbaSearch {
        records: s.records,
        ebr_base: if s.records < 2 {
            t[ext_entry(t)].start_lba
        } else {
            s.ebr_base
        },
    }
}

/// The link to the next record can be followed without leaving the 32-bit sector range.
pub open spec fn link_fits(t: Seq<PartitionTable>, s: LbaSearch) -> bool {
    s.records <= MAX_RECORD && ext_entry(t) != 0 && s.records >= 2 ==> t[ext_entry(
        t,
    )].start_lba + s.ebr_base <= u32::MAX
}

/// `r` is the step that the search `s` takes at a record with table `t`.
pub open spec fn is_next_step(r: LbaStep, t: Seq<PartitionTable>, s: LbaSearch) -> bool {
    &&& s.records > MAX_RECORD ==> (r matches LbaStep::Failed(m) && m@
        == "Too many disk record"@)
    &&& s.records <= MAX_RECORD && ext_entry(t) == 0 ==> (r matches LbaStep::Failed(m) && m@
        == "Cannot find boot partition"@)
    &&& s.records <= MAX_RECORD && ext_entry(t) != 0 ==> (r matches LbaStep::Read(at, s2) && at
        == next_record_lba(t, s) && s2 == next_search(t, s))
}

impl DiskRecord {
    /// The record held in the first 512 bytes of `sector`.
    pub fn from_bytes(sector: &[u8]) -> (r: DiskRecord)
        requires
            sector@.len() >= 512,
        ensures
            r.bootstrap@ == sector@.subrange(0, 446),
            forall|k: int| 0 <= k < 4 ==> #[trigger] r.table@[k] == entry_of(sector@, 446 + 16 * k),
            r.sign == le16(sector@, 510),
    {
        let mut bootstrap = [0u8; 446];
        let mut i: usize = 0;
        while i < 446
            invariant
                sector@.len() >= 512,
                i <= 446,
                bootstrap@.len() == 446,
                forall|j: int| 0 <= j < i ==> bootstrap@[j] == sector@[j],
            decreases 446 - i,
        {
            bootstrap[i] = sector[i];
            i = i + 1;
        }
        assert(bootstrap@ =~= sector@.subrange(0, 446));
        let t0 = Self::entry_at(sector, 446);
        let t1 = Self::entry_at(sector, 462);
        let t2 = Self::entry_at(sector, 478);
        let t3 = Self::entry_at(sector, 494);
        let sign = (sector[510] as u16) + (sector[511] as u16) * 256;
        let r = DiskRecord { bootstrap, table: [t0, t1, t2, t3], sign };
        assert forall|k: int| 0 <= k < 4 implies #[trigger] r.table@[k] == entry_of(
            sector@,
            446 + 16 * k,
        ) by {
            if k == 0 {
            } else if k == 1 {
            } else if k == 2 {
            } else {
            }
        }
        r
    }

    fn entry_at(sector: &[u8], at: usize) -> (r: PartitionTable)
        requires
            at + 16 <= sector@.len(),
        ensures
            r == entry_of(sector@, at as int),
    {
        PartitionTable {
            boot: sector[at],
            start_chs: Chs(sector[at + 1], sector[at + 2], sector[at + 3]),
            ptype: sector[at + 4],
            end_chs: Chs(sector[at + 5], sector[at + 6], sector[at + 7]),
            start_lba: read_le_u32_at(sector, at + 8),
            size: read_le_u32_at(sector, at + 12),
        }
    }

    fn boot_index(&self) -> (r: usize)
        ensures
            r == boot_entry(self.table@),
    {
        if self.table[0].boot != 0 {
            0
        } else if self.table[1].boot != 0 {
            1
        } else if self.table[2].boot != 0 {
            2
        } else if self.table[3].boot != 0 {
            3
        } else {
            4
        }
    }

    fn ext_index(&self) -> (r: usize)
        ensures
            r == ext_entry(self.table@),
    {
        let mut extndx: usize = 0;
        let mut i: usize = 0;
        while i < 4
            invariant
                i <= 4,
                extndx < 4,
                extndx == 0 || extndx < i,
                extndx != 0 ==> is_extended(self.table@[extndx as int].ptype),
                forall|j: int| 1 <= j < i && j > extndx ==> !is_extended(#[trigger] self.table@[j].ptype),
            decreases 4 - i,
        {
            let t = self.table[i].ptype;
            if t == 0x05 || t == 0x85 || t == 0x0f {
                extndx = i;
            }
            i = i + 1;
        }
        extndx
    }

    /// The first step of the search for the boot partition, at the master boot
    /// record: a bootable entry of its own, or the first extended record to read.
    pub fn get_lba(&self) -> (r: LbaStep)
        ensures
            boot_entry(self.table@) < 4 ==> (r matches LbaStep::Found(lba) && lba
                == self.table@[boot_entry(self.table@)].start_lba),
            boot_entry(self.table@) == 4 ==> is_next_step(
                r,
                self.table@,
                LbaSearch { records: 1, ebr_base: 0 },
            ),
    {
        let b = self.boot_index();
        if b < 4 {
            return LbaStep::Found(self.table[b].start_lba);
        }
        self.next_record(LbaSearch { records: 1, ebr_base: 0 })
    }

    /// The step that the search `s` takes at this record when it holds no bootable
    /// entry: follow the link to the next extended record, or give up.
    pub fn next_record(&self, s: LbaSearch) -> (r: LbaStep)
        requires
            link_fits(self.table@, s),
        ensures
            is_next_step(r, self.table@, s),
    {
        let extndx = self.ext_index();
        if s.records > MAX_RECORD {
            return LbaStep::Failed("Too many disk record");
        }
        if extndx != 0 {
            let mut dr_offset = self.table[extndx].start_lba;
            let mut ebr_base = s.ebr_base;
            if s.records < 2 {
                ebr_base = dr_offset;
            } else {
                dr_offset = dr_offset + s.ebr_base;
            }
            LbaStep::Read(dr_offset, LbaSearch { records: s.records, ebr_base })
        } else {
            LbaStep::Failed("Cannot find boot partition")
        }
    }

    /// The step after this record was read from sector `lba` for the search `s`, the
    /// BIOS having answered `status`.
    pub fn read_done(&self, status: u16, lba: u32, s: LbaSearch) -> (r: LbaStep)
        requires
            s.records <= MAX_RECORD,
            status & 0xff00 == 0 && boot_entry(self.table@) < 4 ==> lba + self.table@[boot_entry(
                self.table@,
            )].start_lba <= u32::MAX,
            status & 0xff00 == 0 && boot_entry(self.table@) == 4 ==> link_fits(
                self.table@,
                LbaSearch { records: (s.records + 1) as u16, ebr_base: s.ebr_base },
            ),
        ensures
            status & 0xff00 != 0 ==> (r matches LbaStep::Failed(m) && m@ == "I/O error"@),
            status & 0xff00 == 0 && boot_entry(self.table@) < 4 ==> (r matches LbaStep::Found(at)
                && at == lba + self.table@[boot_entry(self.table@)].start_lba),
            status & 0xff00 == 0 && boot_entry(self.table@) == 4 ==> is_next_step(
                r,
                self.table@,
                LbaSearch { records: (s.records + 1) as u16, ebr_base: s.ebr_base },
            ),
    {
        if status & 0xff00 != 0 {
            return LbaStep::Failed("I/O error");
        }
        let b = self.boot_index();
        if b < 4 {
            return LbaStep::Found(lba + self.table[b].start_lba);
        }
        self.next_record(LbaSearch { records: s.records + 1, ebr_base: s.ebr_base })
    }
}


/// Most sectors that the boot record's loader brings in at a time.
pub const RECORD_MAX_SECTOR: u16 = 8;

/// The `i`-th chunk, of at most `RECORD_MAX_SECTOR` sectors, of an image of `size`
/// sectors read from `lba` to `dst`.
pub open spec fn record_chunk(size: int, dst: int, lba: int, i: int) -> ImageChunk {
    let rest = size - 8 * i;
    ImageChunk {
        sectors: (if rest > 8 {
            8
        } else {
            rest
        }) as u16,
        lba: (lba + 8 * i) as u32,
        dst: (dst + 4096 * i) as u32,
    }
}

/// The number of chunks of at most `RECORD_MAX_SECTOR` sectors of an image of `size`
/// sectors.
pub open spec fn record_chunks(size: int) -> int {
    (size + 7) / 8
}

/// `plan` is the list of chunks of an image of `size` sectors read from `lba` to `dst`.
pub open spec fn is_record_plan(plan: Seq<ImageChunk>, size: int, dst: int, lba: int) -> bool {
    &&& plan.len() == record_chunks(size)
    &&& forall|i: int| 0 <= i < plan.len() ==> plan[i] == record_chunk(size, dst, lba, i)
}

/// The placement of the three images after the boot partition's first sector `slba`:
/// the third stage from `slba`, the kernel after it and the initrd after the kernel;
/// an image of no sectors is not loaded and moves nothing.
pub open spec fn kernel_lba(slba: int, stage3_size: int, kernel_size: int) -> int {
    if kernel_size > 0 {
        slba + stage3_size
    } else {
        slba
    }
}

impl DiskRecord {
    /// The chunks in which an image of `image_size` sectors starting at sector
    /// `start_lba` is copied to `dst`, at most `RECORD_MAX_SECTOR` sectors at a time.
    pub fn read_image(image_size: u16, dst: u32, start_lba: u32) -> (plan: Vec<ImageChunk>)
        requires
            start_lba + image_size <= u32::MAX,
            dst + 512 * image_size <= u32::MAX,
        ensures
            is_record_plan(plan@, image_size as int, dst as int, start_lba as int),
    {
        let mut lba = start_lba;
        let mut left = image_size;
        let mut to = dst;
        let mut plan: Vec<ImageChunk> = Vec::new();
        let mut load_sectors: u16 = RECORD_MAX_SECTOR;
        while left > 0
            invariant
                start_lba + image_size <= u32::MAX,
                dst + 512 * image_size <= u32::MAX,
                left <= image_size,
                left > 0 ==> image_size - left == 8 * plan@.len(),
                left > 0 ==> load_sectors == 8,
                left > 0 ==> lba == start_lba + 8 * plan@.len(),
                left > 0 ==> to == dst + 4096 * plan@.len(),
                plan@.len() <= record_chunks(image_size as int),
                left == 0 ==> plan@.len() == record_chunks(image_size as int),
                left > 0 ==> plan@.len() < record_chunks(image_size as int),
                forall|i: int|
                    0 <= i < plan@.len() ==> plan@[i] == record_chunk(
                        image_size as int,
                        dst as int,
                        start_lba as int,
                        i,
                    ),
            decreases left,
        {
            if load_sectors > left {
                load_sectors = left;
            }
            let c = ImageChunk { sectors: load_sectors, lba, dst: to };
            assert(c == record_chunk(image_size as int, dst as int, start_lba as int, plan@.len() as int));
            plan.push(c);
            let ghost n = plan@.len() as int;
            left = left - load_sectors;
            lba = lba + load_sectors as u32;
            to = to + 512 * load_sectors as u32;
            proof {
                if left > 0 {
                    assert(image_size - 8 * n > 0);
                    assert(n < record_chunks(image_size as int));
                } else {
                    assert(n == record_chunks(image_size as int));
                }
            }
        }
        plan
    }

    /// Where the third stage, the kernel image and the initrd go, once the search has
    /// found that the boot partition starts at `slba`: the chunks of each, in the
    /// order they are read (none for an image of no sectors).
    pub fn load_images(slba: u32, stage3_size: u16, kernel_size: u16, initrd_size: u16) -> (r: (
        Vec<ImageChunk>,
        Vec<ImageChunk>,
        Vec<ImageChunk>,
    ))
        requires
            slba + stage3_size + kernel_size + initrd_size <= u32::MAX,
        ensures
            is_record_plan(
                r.0@,
                stage3_size as int,
                (INIT_SEG << 4) + STAGE3_START,
                slba as int,
            ),
            is_record_plan(
                r.1@,
                kernel_size as int,
                BZ_IMAGE_START as int,
                kernel_lba(slba as int, stage3_size as int, kernel_size as int),
            ),
            is_record_plan(
                r.2@,
                initrd_size as int,
                BZ_INITRD_START as int,
                (if initrd_size > 0 {
                    kernel_lba(slba as int, stage3_size as int, kernel_size as int) + kernel_size
                } else {
                    kernel_lba(slba as int, stage3_size as int, kernel_size as int)
                }),
            ),
    {
        let mut lba = slba;
        assert((INIT_SEG << 4) + STAGE3_START == 0xDC00) by (bit_vector);
        let s3 = if stage3_size > 0 {
            Self::read_image(stage3_size, (INIT_SEG << 4) + STAGE3_START, lba)
        } else {
            Vec::new()
        };
        let kernel = if kernel_size > 0 {
            lba = lba + stage3_size as u32;
            Self::read_image(kernel_size, BZ_IMAGE_START, lba)
        } else {
            Vec::new()
        };
        let initrd = if initrd_size > 0 {
            lba = lba + kernel_size as u32;
            Self::read_image(initrd_size, BZ_INITRD_START, lba)
        } else {
            Vec::new()
        };
        (s3, kernel, initrd)
    }
}

/// Law: the search for the boot partition looks at no more than `MAX_RECORD`
/// records. A step that asks for a read keeps the count of records looked at, and
/// asks only while that count is at most `MAX_RECORD`; the step after a read counts
/// the record just read.
pub proof fn lemma_search_bounded(r: LbaStep, t: Seq<PartitionTable>, s: LbaSearch)
    requires
        is_next_step(r, t, s),
    ensures
        r matches LbaStep::Read(_, s2) ==> s2.records == s.records && s.records <= MAX_RECORD,
        r matches LbaStep::Read(at, _) ==> at == next_record_lba(t, s),
{
}


/// The parameters that the first stage leaves for the second: where the third stage
/// starts on disk and the sizes in sectors of the third and fourth stages.
#[derive(Debug, Clone, Copy)]
pub struct ParamTable {
    pub stage3_poss: u16,
    pub stage3_size: u16,
    pub stage4_size: u16,
}

/// Law: the chunks of an image tile it. Every chunk brings in between one and
/// `MAX_SECTOR` sectors; each chunk starts on disk and in memory where the previous one
/// ended; the last one ends with the image.
pub proof fn lemma_image_chunks_tile(size: int, dst: int, lba: int, i: int)
    requires
        size >= 0,
        0 <= i < image_chunks(size),
        lba + size <= u16::MAX,
        dst + 512 * size <= u32::MAX,
        lba >= 0,
        dst >= 0,
    ensures
        1 <= image_chunk(size, dst, lba, i).sectors <= MAX_SECTOR,
        i + 1 < image_chunks(size) ==> image_chunk(size, dst, lba, i + 1).lba
            == image_chunk(size, dst, lba, i).lba + image_chunk(size, dst, lba, i).sectors
            && image_chunk(size, dst, lba, i + 1).dst == image_chunk(size, dst, lba, i).dst + 512
            * image_chunk(size, dst, lba, i).sectors,
        i + 1 == image_chunks(size) ==> image_chunk(size, dst, lba, i).lba + image_chunk(
            size,
            dst,
            lba,
            i,
        ).sectors == lba + size,
{
    assert(size + 15 >= 16 * (i + 1)) by (nonlinear_arith)
        requires
            i < (size + 15) / 16,
    ;
    if i + 1 < image_chunks(size) {
        assert(size + 15 >= 16 * (i + 2)) by (nonlinear_arith)
            requires
                i + 1 < (size + 15) / 16,
        ;
    } else {
        assert(size + 15 < 16 * (i + 2)) by (nonlinear_arith)
            requires
                i + 1 == (size + 15) / 16,
        ;
    }
}

} // verus!
