//! The FAT32 boot sector and volume.
pub mod dir;
pub mod file;

use vstd::prelude::*;
use crate::fs::blkdev::BlockDevice;
use crate::mem::{le16, le32};

verus! {

/// The sector size that the volume code buffers.
pub const BUFFER_SIZE: usize = 512;

/// The BIOS parameter block of a FAT32 volume.
#[derive(Debug, Copy, Clone)]
pub struct BIOSParameterBlock {
    pub byte_per_sector: u16,
    pub sector_per_cluster: u8,
    pub reserved_sector: u16,
    pub num_fat: u8,
    pub total_sector: u32,
    pub sector_per_fat: u32,
    pub root_cluster: u32,
    pub id: u32,
    pub volume_label: [u8; 11],
    pub file_system: [u8; 8],
}

/// Sectors before the first data cluster: the reserved area and the FATs.
pub open spec fn data_start_sectors(b: BIOSParameterBlock) -> int {
    b.reserved_sector as int + b.num_fat as int * b.sector_per_fat as int
}

/// The sector index of `cluster` counted from the start of the volume.
pub open spec fn cluster_sector(b: BIOSParameterBlock, cluster: int) -> int {
    data_start_sectors(b) + (cluster - 2) * b.sector_per_cluster as int
}

/// The byte offset of the first sector of `cluster`.
pub open spec fn cluster_offset(b: BIOSParameterBlock, cluster: int) -> int {
    cluster_sector(b, cluster) * b.byte_per_sector as int
}

/// `offset` can be computed for `cluster` in 32-bit arithmetic.
pub open spec fn offset_ok(b: BIOSParameterBlock, cluster: int) -> bool {
    &&& cluster >= 2
    &&& cluster_sector(b, cluster) <= u32::MAX
    &&& cluster_offset(b, cluster) <= u32::MAX
}

/// The byte offset of the first FAT.
pub open spec fn fat1_offset(b: BIOSParameterBlock) -> int {
    b.reserved_sector as int * b.byte_per_sector as int
}

/// `b` is the parameter block that the boot sector `s` describes.
pub open spec fn bpb_of(b: BIOSParameterBlock, s: Seq<u8>) -> bool {
    &&& b.byte_per_sector == le16(s, 0x0B)
    &&& b.sector_per_cluster == s[0x0D]
    &&& b.reserved_sector == le16(s, 0x0E)
    &&& b.num_fat == s[0x10]
    &&& b.total_sector == le32(s, 0x20)
    &&& b.sector_per_fat == le32(s, 0x24)
    &&& b.root_cluster == le32(s, 0x2C)
    &&& b.id == le32(s, 0x43)
    &&& b.volume_label@ == s.subrange(0x47, 0x52)
    &&& b.file_system@ == s.subrange(0x52, 0x5A)
}

impl BIOSParameterBlock {
    /// The byte offset of the first sector of `cluster`.
    pub fn offset(&self, cluster: u32) -> (r: usize)
        requires
            offset_ok(*self, cluster as int),
        ensures
            r == cluster_offset(*self, cluster as int),
    {
        proof {
            let b = *self;
            assert(0 <= b.num_fat as int * b.sector_per_fat as int) by (nonlinear_arith);
            assert(0 <= (cluster - 2) * b.sector_per_cluster as int) by (nonlinear_arith)
                requires
                    cluster >= 2,
            ;
        }
        let fats = (self.num_fat as u32) * self.sector_per_fat;
        let skip = (cluster - 2) * (self.sector_per_cluster as u32);
        let sector = (self.reserved_sector as u32) + fats + skip;
        (sector * (self.byte_per_sector as u32)) as usize
    }

    /// The byte offset of the first FAT.
    pub fn fat1(&self) -> (r: usize)
        ensures
            r == fat1_offset(*self),
    {
        proof {
            let b = *self;
            assert(b.reserved_sector as int * b.byte_per_sector as int <= 0xffff * 0xffff)
                by (nonlinear_arith)
                requires
                    b.reserved_sector <= 0xffff,
                    b.byte_per_sector <= 0xffff,
            ;
        }
        ((self.reserved_sector as u32) * (self.byte_per_sector as u32)) as usize
    }
}

/// Little-endian 16-bit value at the start of `input`.
pub fn read_le_u16(input: &[u8]) -> (r: u16)
    requires
        input@.len() >= 2,
    ensures
        r == le16(input@, 0),
{
    (input[0] as u16) + (input[1] as u16) * 256
}

/// Little-endian 32-bit value at the start of `input`.
pub fn read_le_u32(input: &[u8]) -> (r: u32)
    requires
        input@.len() >= 4,
    ensures
        r == le32(input@, 0),
{
    let lo = (input[0] as u32) + (input[1] as u32) * 256;
    let hi = (input[2] as u32) + (input[3] as u32) * 256;
    lo + hi * 65536
}

/// Little-endian 32-bit value of the four bytes of `input` at `at`.
pub fn read_le_u32_at(input: &[u8], at: usize) -> (r: u32)
    requires
        at + 4 <= input@.len(),
    ensures
        r == le32(input@, at as int),
{
    let lo = (input[at] as u32) + (input[at + 1] as u32) * 256;
    let hi = (input[at + 2] as u32) + (input[at + 3] as u32) * 256;
    lo + hi * 65536
}

/// A FAT32 volume on a block device.
pub struct Volume<'a, T: BlockDevice> {
    pub base: &'a T,
    pub bpb: BIOSParameterBlock,
}

impl<'a, T: BlockDevice> Volume<'a, T> {
    /// Mount the volume by reading its boot sector, whose sector size must be 512 bytes.
    pub fn new(base: &'a T) -> (r: Volume<'a, T>)
        requires
            base.contents().len() >= BUFFER_SIZE,
            le16(base.contents(), 0x0B) == BUFFER_SIZE,
        ensures
            r.base == base,
            bpb_of(r.bpb, base.contents()),
    {
        let mut buf = [0u8; 512];
        let rr = base.read(&mut buf, 0);
        assert(rr is Ok);
        let ghost s = base.contents();
        assert(forall|k: int| 0 <= k < 512 ==> buf@[k] == s[k]);

        let mut volume_label = [0u8; 11];
        let mut i: usize = 0;
        while i < 11
            invariant
                i <= 11,
                buf@.len() == 512,
                forall|k: int| 0 <= k < 512 ==> buf@[k] == s[k],
                forall|k: int| 0 <= k < i ==> volume_label@[k] == s[0x47 + k],
            decreases 11 - i,
        {
            volume_label[i] = buf[0x47 + i];
            i = i + 1;
        }
        let mut file_system = [0u8; 8];
        let mut j: usize = 0;
        while j < 8
            invariant
                j <= 8,
                buf@.len() == 512,
                forall|k: int| 0 <= k < 512 ==> buf@[k] == s[k],
                forall|k: int| 0 <= k < j ==> file_system@[k] == s[0x52 + k],
            decreases 8 - j,
        {
            file_system[j] = buf[0x52 + j];
            j = j + 1;
        }
        assert(volume_label@ =~= s.subrange(0x47, 0x52));
        assert(file_system@ =~= s.subrange(0x52, 0x5A));

        let bps = (buf[0x0B] as u16) + (buf[0x0C] as u16) * 256;
        let bpb = BIOSParameterBlock {
            byte_per_sector: bps,
            sector_per_cluster: buf[0x0D],
            reserved_sector: (buf[0x0E] as u16) + (buf[0x0F] as u16) * 256,
            num_fat: buf[0x10],
            total_sector: read_le_u32_at(&buf, 0x20),
            sector_per_fat: read_le_u32_at(&buf, 0x24),
            root_cluster: read_le_u32_at(&buf, 0x2C),
            id: read_le_u32_at(&buf, 0x43),
            volume_label,
            file_system,
        };
        Volume { base, bpb }
    }

    /// The root directory of the volume.
    pub fn root_dir(&self) -> (r: dir::Dir<'a, T>)
        ensures
            r.partition == self.base,
            r.bpb == self.bpb,
            r.dir_name@ == Seq::new(11, |i: int| 0u8),
            r.dir_cluster == self.bpb.root_cluster,
            r.length == 0,
    {
        let d = dir::Dir {
            partition: self.base,
            bpb: self.bpb,
            dir_name: [0u8; 11],
            dir_cluster: self.bpb.root_cluster,
            length: 0,
        };
        assert(d.dir_name@ =~= Seq::new(11, |i: int| 0u8));
        d
    }
}

} // verus!
