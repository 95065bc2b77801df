//! Block devices and the splitting of a byte read into BIOS disk transfers.
use vstd::prelude::*;
use crate::mem::MemoryRegion;

verus! {

/// The most sectors that one BIOS transfer brings into the track buffer.
pub const MAX_SECTOR: u32 = 16;

/// The size of a disk sector in bytes.
pub const SECTOR_SIZE: usize = 512;

/// The size of the track buffer in bytes.
pub const TRACK_BUFFER_BYTES: usize = 8192;

#[derive(Debug, Clone, Copy, PartialEq, Eq)]
pub enum BIOError {
    IOError,
}

/// Something that holds bytes and hands out copies of a range of them.
pub trait BlockDevice {
    /// The bytes the device holds, from offset 0.
    spec fn contents(&self) -> Seq<u8>;

    /// Fill `buf` with the bytes at `offset`; the read succeeds exactly when the whole
    /// range lies on the device.
    fn read(&self, buf: &mut [u8], offset: usize) -> (r: Result<(), BIOError>)
        ensures
            final(buf)@.len() == old(buf)@.len(),
            r is Ok <==> offset + old(buf)@.len() <= self.contents().len(),
            r is Ok ==> final(buf)@ == self.contents().subrange(
                offset as int,
                offset + old(buf)@.len(),
            ),
    ;
}

/// An image held in memory is a block device over its bytes.
impl BlockDevice for MemoryRegion {
    open spec fn contents(&self) -> Seq<u8> {
        self@
    }

    fn read(&self, buf: &mut [u8], offset: usize) -> (r: Result<(), BIOError>) {
        let n = buf.len();
        let total = self.len_usize();
        if offset > total || n > total - offset {
            return Err(BIOError::IOError);
        }
        let mut i: usize = 0;
        while i < n
            invariant
                i <= n,
                n == old(buf)@.len(),
                offset + n <= self@.len(),
                self@.len() == total,
                buf@.len() == n,
                forall|k: int| 0 <= k < i ==> buf@[k] == self@[offset + k],
            decreases n - i,
        {
            let b = self.byte_at(offset + i);
            buf[i] = b;
            i = i + 1;
        }
        assert(buf@ =~= self@.subrange(offset as int, offset + n));
        Ok(())
    }
}

/// One BIOS transfer of a read and the part of it that lands in the caller's buffer.
#[derive(Debug, Clone, Copy, PartialEq, Eq)]
pub struct DiskRead {
    /// First sector brought into the track buffer.
    pub start_lba: u32,
    /// Number of sectors brought in.
    pub sectors: u32,
    /// Where in the track buffer the useful bytes start.
    pub sector_offset: usize,
    /// Where in the caller's buffer they go.
    pub buff_offset: usize,
    /// How many bytes are copied.
    pub n_bytes: usize,
}

pub open spec fn min(a: int, b: int) -> int {
    if a < b {
        a
    } else {
        b
    }
}

/// The number of sectors that the bytes `offset .. offset + len` touch.
pub open spec fn sectors_touched(len: int, offset: int) -> int {
    (offset + len - 1) / 512 - offset / 512 + 1
}

/// The `i`-th transfer that reading `len` bytes at `offset` takes.
pub open spec fn planned_read(len: int, offset: int, i: int) -> DiskRead {
    let start = offset / 512;
    let sectors = min(16, sectors_touched(len, offset) - 16 * i);
    let so = if i == 0 {
        offset % 512
    } else {
        0
    };
    let bo = if i == 0 {
        0
    } else {
        512 * (start + 16 * i) - offset
    };
    DiskRead {
        start_lba: (start + 16 * i) as u32,
        sectors: sectors as u32,
        sector_offset: so as usize,
        buff_offset: bo as usize,
        n_bytes: min(len - bo, 512 * sectors - so) as usize,
    }
}

/// Copy what the last transfer left in the track buffer into `buf`, returning the
/// number of bytes copied: as many as both the buffer and the transfer hold.
pub fn copy_bytes(
    buf: &mut [u8],
    track: &[u8],
    stored_bytes: usize,
    buff_offset: usize,
    sector_offset: usize,
) -> (n: usize)
    requires
        buff_offset <= old(buf)@.len(),
        sector_offset <= stored_bytes,
        track@.len() == TRACK_BUFFER_BYTES,
        sector_offset + min(old(buf)@.len() - buff_offset, stored_bytes - sector_offset)
            <= TRACK_BUFFER_BYTES,
    ensures
        n == min(old(buf)@.len() - buff_offset, stored_bytes - sector_offset),
        final(buf)@ == old(buf)@.subrange(0, buff_offset as int) + track@.subrange(
            sector_offset as int,
            sector_offset + n,
        ) + old(buf)@.subrange(buff_offset + n, old(buf)@.len() as int),
{
    let blen = buf.len();
    let buf_cap = blen - buff_offset;
    let avail_bytes = stored_bytes - sector_offset;
    let n_bytes = if buf_cap < avail_bytes {
        buf_cap
    } else {
        avail_bytes
    };
    let ghost b0 = buf@;
    let mut k: usize = 0;
    while k < n_bytes
        invariant
            k <= n_bytes,
            n_bytes == min(b0.len() - buff_offset, stored_bytes - sector_offset),
            buff_offset + n_bytes <= b0.len(),
            b0.len() == blen,
            sector_offset + n_bytes <= track@.len(),
            buf@.len() == b0.len(),
            forall|j: int| 0 <= j < buff_offset ==> buf@[j] == b0[j],
            forall|j: int| buff_offset + n_bytes <= j < b0.len() ==> buf@[j] == b0[j],
            forall|j: int|
                buff_offset <= j < buff_offset + k ==> #[trigger] buf@[j] == track@[j - buff_offset
                    + sector_offset],
            forall|j: int| buff_offset + k <= j < b0.len() ==> #[trigger] buf@[j] == b0[j],
        decreases n_bytes - k,
    {
        buf[buff_offset + k] = track[sector_offset + k];
        k = k + 1;
    }
    assert(buf@ =~= b0.subrange(0, buff_offset as int) + track@.subrange(
        sector_offset as int,
        sector_offset + n_bytes,
    ) + b0.subrange(buff_offset + n_bytes, b0.len() as int));
    n_bytes
}

/// Split a read of `len` bytes at byte `offset` of the disk into BIOS transfers of at
/// most `MAX_SECTOR` sectors each, in order.
pub fn read_plan(len: usize, offset: usize) -> (plan: Vec<DiskRead>)
    requires
        offset + len >= 1,
        offset + len <= usize::MAX,
        offset / 512 <= (offset + len - 1) / 512,
        (offset + len - 1) / 512 <= u32::MAX,
    ensures
        plan@.len() == (sectors_touched(len as int, offset as int) + 15) / 16,
        forall|i: int| 0 <= i < plan@.len() ==> plan@[i] == planned_read(len as int, offset as int, i),
{
    let start_lba = offset / 512;
    let end_lba = (offset + len - 1) / 512;
    assert(offset == 512 * start_lba + offset % 512);
    assert(512 * end_lba <= offset + len - 1 < 512 * end_lba + 512);
    let mut num_sectors = end_lba - start_lba + 1;
    let num_invokes = (num_sectors + 15) / 16;
    let mut buff_offset: usize = 0;
    let mut plan: Vec<DiskRead> = Vec::new();
    let mut i: usize = 0;
    while i < num_invokes
        invariant
            start_lba == offset / 512,
            end_lba == (offset + len - 1) / 512,
            end_lba <= u32::MAX,
            offset + len <= usize::MAX,
            num_invokes == (sectors_touched(len as int, offset as int) + 15) / 16,
            i <= num_invokes,
            start_lba <= end_lba,
            offset == 512 * start_lba + offset % 512,
            512 * end_lba <= offset + len - 1 < 512 * end_lba + 512,
            i < num_invokes ==> num_sectors == sectors_touched(len as int, offset as int) - 16 * i,
            i < num_invokes ==> buff_offset == (if i == 0 {
                0
            } else {
                512 * (start_lba + 16 * i) - offset
            }),
            buff_offset <= len,
            plan@.len() == i,
            forall|j: int| 0 <= j < i ==> plan@[j] == planned_read(len as int, offset as int, j),
        decreases num_invokes - i,
    {
        let load_sectors: u32 = if num_sectors > 16 {
            16
        } else {
            num_sectors as u32
        };
        let sector_offset = if i == 0 {
            offset % 512
        } else {
            0
        };
        let stored = load_sectors as usize * 512;
        let buf_cap = len - buff_offset;
        let avail = stored - sector_offset;
        let n_bytes = if buf_cap < avail {
            buf_cap
        } else {
            avail
        };
        let d = DiskRead {
            start_lba: start_lba as u32 + (i as u32) * 16,
            sectors: load_sectors,
            sector_offset,
            buff_offset,
            n_bytes,
        };
        assert(d == planned_read(len as int, offset as int, i as int));
        plan.push(d);
        proof {
            let tot = sectors_touched(len as int, offset as int);
            if i + 1 < num_invokes {
                assert(tot + 15 >= 16 * (i + 2)) by (nonlinear_arith)
                    requires
                        num_invokes == (tot + 15) / 16,
                        i + 1 < num_invokes,
                ;
                assert(end_lba >= start_lba + 16 * (i + 1));
            }
        }
        buff_offset = buff_offset + n_bytes;
        num_sectors = num_sectors - load_sectors as usize;
        i = i + 1;
    }
    plan
}

} // verus!

verus! {

/// Law: the transfers of a read tile the requested bytes. Transfer `i` copies the disk
/// bytes that start at `offset + buff_offset_i`, lies inside the sectors it brings in,
/// each transfer starts where the previous one ended, and the last one ends at `len`.
pub proof fn lemma_read_plan_covers(len: int, offset: int, i: int)
    requires
        0 <= offset,
        0 <= len,
        offset + len >= 1,
        offset + len <= usize::MAX,
        offset / 512 <= (offset + len - 1) / 512,
        (offset + len - 1) / 512 <= u32::MAX,
        0 <= i < (sectors_touched(len, offset) + 15) / 16,
    ensures
        ({
            let d = planned_read(len, offset, i);
            &&& d.start_lba as int * 512 + d.sector_offset == offset + d.buff_offset
            &&& 1 <= d.sectors <= 16
            &&& d.sector_offset + d.n_bytes <= 512 * d.sectors
            &&& i + 1 < (sectors_touched(len, offset) + 15) / 16 ==> planned_read(
                len,
                offset,
                i + 1,
            ).buff_offset == d.buff_offset + d.n_bytes
            &&& i + 1 == (sectors_touched(len, offset) + 15) / 16 ==> d.buff_offset + d.n_bytes
                == len
        }),
{
    let start = offset / 512;
    let end = (offset + len - 1) / 512;
    let tot = sectors_touched(len, offset);
    let n = (tot + 15) / 16;
    assert(offset == 512 * start + offset % 512);
    assert(512 * end <= offset + len - 1 < 512 * end + 512);
    assert(tot + 15 >= 16 * (i + 1)) by (nonlinear_arith)
        requires
            n == (tot + 15) / 16,
            i < n,
    ;
    assert(start + 16 * i <= end);
    if i + 1 < n {
        assert(tot + 15 >= 16 * (i + 2)) by (nonlinear_arith)
            requires
                n == (tot + 15) / 16,
                i + 1 < n,
        ;
    } else {
        assert(tot + 15 < 16 * (i + 2)) by (nonlinear_arith)
            requires
                n == (tot + 15) / 16,
                i + 1 == n,
        ;
    }
}

} // verus!
