//! FAT32 files: reading a file by following its cluster chain.
use vstd::prelude::*;
use crate::fs::blkdev::BlockDevice;
use crate::fs::fat32::{BIOSParameterBlock, offset_ok, cluster_offset, fat1_offset, read_le_u32};
use crate::mem::le32;

verus! {

#[derive(Debug, Copy, Clone, PartialEq, Eq)]
pub enum FileError {
    BufTooSmall,
    IllegalName,
}

/// A file of a FAT32 volume, as its directory entry describes it.
pub struct File<'a, T: BlockDevice> {
    pub partition: &'a T,
    pub bpb: BIOSParameterBlock,
    pub dir_cluster: u32,
    pub offset: u32,
    pub file_name: [u8; 8],
    pub extension_name: [u8; 3],
    pub file_cluster: u32,
    pub length: usize,
}

} // verus!

verus! {

/// The bytes in one cluster.
pub open spec fn cluster_bytes(b: BIOSParameterBlock) -> int {
    b.sector_per_cluster as int * b.byte_per_sector as int
}

/// The FAT entry of `loc`: the cluster that follows it, the low 28 bits of the entry
/// (a FAT32 entry's top 4 bits are reserved).
pub open spec fn next_cluster(d: Seq<u8>, b: BIOSParameterBlock, loc: int) -> int {
    le32(d, fat1_offset(b) + 4 * loc) % 0x1000_0000
}

/// Reading `n` whole clusters along the chain from `loc`, and the FAT entry after each,
/// stays on the device.
pub open spec fn chain_ok(d: Seq<u8>, b: BIOSParameterBlock, loc: int, n: nat) -> bool
    decreases n,
{
    n == 0 || {
        &&& offset_ok(b, loc)
        &&& cluster_offset(b, loc) + cluster_bytes(b) <= d.len()
        &&& fat1_offset(b) + 4 * loc + 4 <= d.len()
        &&& chain_ok(d, b, next_cluster(d, b, loc), (n - 1) as nat)
    }
}

/// The bytes of `n` whole clusters along the chain from `loc`.
pub open spec fn chain_data(d: Seq<u8>, b: BIOSParameterBlock, loc: int, n: nat) -> Seq<u8>
    decreases n,
{
    if n == 0 {
        seq![]
    } else {
        d.subrange(cluster_offset(b, loc), cluster_offset(b, loc) + cluster_bytes(b))
            + chain_data(d, b, next_cluster(d, b, loc), (n - 1) as nat)
    }
}

/// The cluster reached after `n` steps along the chain from `loc`.
pub open spec fn chain_end(d: Seq<u8>, b: BIOSParameterBlock, loc: int, n: nat) -> int
    decreases n,
{
    if n == 0 {
        loc
    } else {
        chain_end(d, b, next_cluster(d, b, loc), (n - 1) as nat)
    }
}

/// The number of whole clusters of a file of `length` bytes.
pub open spec fn whole_clusters(b: BIOSParameterBlock, length: int) -> int {
    (length / b.byte_per_sector as int) / b.sector_per_cluster as int
}

/// The bytes of a file of `length` bytes after its whole clusters.
pub open spec fn tail_bytes(b: BIOSParameterBlock, length: int) -> int {
    ((length / b.byte_per_sector as int) % b.sector_per_cluster as int) * b.byte_per_sector as int
        + length % b.byte_per_sector as int
}

/// Reading the file that starts at `cluster` and is `length` bytes long stays on the
/// device and within 32-bit cluster offsets.
pub open spec fn file_read_ok(d: Seq<u8>, b: BIOSParameterBlock, cluster: int, length: int) -> bool {
    let n = whole_clusters(b, length);
    let end = chain_end(d, b, cluster, n as nat);
    &&& b.byte_per_sector > 0
    &&& b.sector_per_cluster > 0
    &&& chain_ok(d, b, cluster, n as nat)
    &&& tail_bytes(b, length) > 0 ==> offset_ok(b, end) && cluster_offset(b, end) + tail_bytes(
        b,
        length,
    ) <= d.len()
}

/// The bytes of the file that starts at `cluster` and is `length` bytes long.
pub open spec fn file_data(d: Seq<u8>, b: BIOSParameterBlock, cluster: int, length: int) -> Seq<
    u8,
> {
    let n = whole_clusters(b, length);
    let end = chain_end(d, b, cluster, n as nat);
    chain_data(d, b, cluster, n as nat) + if tail_bytes(b, length) > 0 {
        d.subrange(cluster_offset(b, end), cluster_offset(b, end) + tail_bytes(b, length))
    } else {
        seq![]
    }
}

proof fn lemma_chain_step(d: Seq<u8>, b: BIOSParameterBlock, loc: int, j: nat, n: nat)
    requires
        j < n,
        chain_ok(d, b, loc, n),
    ensures
        chain_ok(d, b, chain_end(d, b, loc, j), (n - j) as nat),
        chain_end(d, b, loc, j + 1) == next_cluster(d, b, chain_end(d, b, loc, j)),
        chain_data(d, b, loc, j + 1) == chain_data(d, b, loc, j) + {
            let e = chain_end(d, b, loc, j);
            d.subrange(cluster_offset(b, e), cluster_offset(b, e) + cluster_bytes(b))
        },
    decreases j,
{
    let nx = next_cluster(d, b, loc);
    let sub = d.subrange(cluster_offset(b, loc), cluster_offset(b, loc) + cluster_bytes(b));
    if j == 0 {
        assert(chain_end(d, b, loc, 1) == chain_end(d, b, nx, 0));
        assert(chain_data(d, b, nx, 0) == Seq::<u8>::empty());
        assert(chain_data(d, b, loc, 1) == sub + chain_data(d, b, nx, 0));
        assert(chain_data(d, b, loc, 1) =~= chain_data(d, b, loc, 0) + sub);
    } else {
        lemma_chain_step(d, b, nx, (j - 1) as nat, (n - 1) as nat);
        assert(chain_end(d, b, loc, j) == chain_end(d, b, nx, (j - 1) as nat));
        assert(chain_end(d, b, loc, j + 1) == chain_end(d, b, nx, j));
        assert(chain_data(d, b, loc, j) == sub + chain_data(d, b, nx, (j - 1) as nat));
        assert(chain_data(d, b, loc, j + 1) == sub + chain_data(d, b, nx, j));
        assert(chain_ok(d, b, loc, n) == chain_ok(d, b, nx, (n - 1) as nat));
        let e = chain_end(d, b, loc, j);
        assert(chain_data(d, b, loc, j + 1) =~= chain_data(d, b, loc, j) + d.subrange(
            cluster_offset(b, e),
            cluster_offset(b, e) + cluster_bytes(b),
        ));
    }
}

proof fn lemma_chain_data_len(d: Seq<u8>, b: BIOSParameterBlock, loc: int, n: nat)
    requires
        chain_ok(d, b, loc, n),
    ensures
        chain_data(d, b, loc, n).len() == n * cluster_bytes(b),
    decreases n,
{
    let cb = cluster_bytes(b);
    assert(0 <= cb) by (nonlinear_arith)
        requires
            cb == b.sector_per_cluster as int * b.byte_per_sector as int,
    ;
    if n == 0 {
        assert(chain_data(d, b, loc, n).len() == 0);
        assert(n * cb == 0) by (nonlinear_arith)
            requires
                n == 0,
        ;
    } else {
        let m = (n - 1) as nat;
        assert(n * cb == cb + m * cb) by (nonlinear_arith)
            requires
                m == n - 1,
        ;
        let nx = next_cluster(d, b, loc);
        lemma_chain_data_len(d, b, nx, (n - 1) as nat);
        assert(cluster_offset(b, loc) >= 0) by (nonlinear_arith)
            requires
                loc >= 2,
                cluster_offset(b, loc) == (b.reserved_sector as int + b.num_fat as int
                    * b.sector_per_fat as int + (loc - 2) * b.sector_per_cluster as int)
                    * b.byte_per_sector as int,
        ;
        assert(chain_data(d, b, loc, n).len() == cb + chain_data(d, b, nx, m).len());
    }
}

proof fn lemma_file_split(b: BIOSParameterBlock, length: int)
    requires
        length >= 0,
        b.byte_per_sector > 0,
        b.sector_per_cluster > 0,
    ensures
        whole_clusters(b, length) * cluster_bytes(b) + tail_bytes(b, length) == length,
        0 <= whole_clusters(b, length),
        0 <= tail_bytes(b, length),
{
    let bps = b.byte_per_sector as int;
    let spc = b.sector_per_cluster as int;
    let q = length / bps;
    assert(length == q * bps + length % bps) by (nonlinear_arith)
        requires
            bps > 0,
            q == length / bps,
    ;
    assert(q == (q / spc) * spc + q % spc) by (nonlinear_arith)
        requires
            spc > 0,
    ;
    assert((q / spc) * (spc * bps) == ((q / spc) * spc) * bps) by (nonlinear_arith);
    assert(q * bps == ((q / spc) * spc) * bps + (q % spc) * bps) by (nonlinear_arith)
        requires
            q == (q / spc) * spc + q % spc,
    ;
    assert(0 <= q) by (nonlinear_arith)
        requires
            length >= 0,
            bps > 0,
            q == length / bps,
    ;
    assert(0 <= q / spc) by (nonlinear_arith)
        requires
            q >= 0,
            spc > 0,
    ;
    assert(0 <= (q % spc) * bps) by (nonlinear_arith)
        requires
            spc > 0,
            bps > 0,
    ;
}

/// The bytes of a file that can be read are as many as its length.
pub proof fn lemma_file_data_len(d: Seq<u8>, b: BIOSParameterBlock, cluster: int, length: int)
    requires
        length >= 0,
        file_read_ok(d, b, cluster, length),
    ensures
        file_data(d, b, cluster, length).len() == length,
{
    lemma_file_split(b, length);
    lemma_chain_data_len(d, b, cluster, whole_clusters(b, length) as nat);
}


/// Copy `src` into `buf` at `at`.
fn copy_into(buf: &mut [u8], at: usize, src: &[u8])
    requires
        at + src@.len() <= old(buf)@.len(),
    ensures
        final(buf)@ == old(buf)@.subrange(0, at as int) + src@ + old(buf)@.subrange(
            at + src@.len(),
            old(buf)@.len() as int,
        ),
{
    let ghost b0 = buf@;
    let n = src.len();
    let bl = buf.len();
    let mut i: usize = 0;
    while i < n
        invariant
            i <= n,
            n == src@.len(),
            bl == b0.len(),
            at + n <= b0.len(),
            buf@.len() == b0.len(),
            forall|j: int| 0 <= j < at ==> buf@[j] == b0[j],
            forall|j: int| at <= j < at + i ==> #[trigger] buf@[j] == src@[j - at],
            forall|j: int| at + i <= j < b0.len() ==> #[trigger] buf@[j] == b0[j],
        decreases n - i,
    {
        buf[at + i] = src[i];
        i = i + 1;
    }
    assert(buf@ =~= b0.subrange(0, at as int) + src@ + b0.subrange(at + n, b0.len() as int));
}

impl<'a, T: BlockDevice> File<'a, T> {
    /// The file's length in bytes.
    pub fn len(&self) -> (r: usize)
        ensures
            r == self.length,
    {
        self.length
    }

    /// Read the whole file into the front of `buf` and return its length; fails when
    /// `buf` is shorter than the file, and then leaves it as it was.
    pub fn read(&self, buf: &mut [u8]) -> (r: Result<usize, FileError>)
        requires
            old(buf)@.len() >= self.length ==> {
                &&& file_read_ok(
                    self.partition.contents(),
                    self.bpb,
                    self.file_cluster as int,
                    self.length as int,
                )
                &&& self.partition.contents().len() <= usize::MAX
            },
        ensures
            old(buf)@.len() < self.length ==> r == Err::<usize, FileError>(FileError::BufTooSmall)
                && final(buf)@ == old(buf)@,
            old(buf)@.len() >= self.length ==> r == Ok::<usize, FileError>(self.length)
                && final(buf)@ == file_data(
                self.partition.contents(),
                self.bpb,
                self.file_cluster as int,
                self.length as int,
            ) + old(buf)@.subrange(self.length as int, old(buf)@.len() as int),
    {
        if buf.len() < self.length {
            return Err(FileError::BufTooSmall);
        }
        let ghost d = self.partition.contents();
        let ghost b = self.bpb;
        let ghost b0 = buf@;
        let ghost c0 = self.file_cluster as int;
        let bps = self.bpb.byte_per_sector as usize;
        let spc = self.bpb.sector_per_cluster as usize;
        assert(spc * bps <= 255 * 65535) by (nonlinear_arith)
            requires
                spc <= 255,
                bps <= 65535,
        ;
        let cb = spc * bps;
        let clusters = (self.length / bps) / spc;
        let sectors = (self.length / bps) % spc;
        let bytes = self.length % bps;
        proof {
            lemma_file_split(b, self.length as int);
            lemma_chain_data_len(d, b, c0, clusters as nat);
            assert(clusters * cb <= self.length);
        }
        let mut loc = self.file_cluster;
        let mut start_at: usize = 0;
        let mut j: usize = 0;
        while j < clusters
            invariant
                d == self.partition.contents(),
                b == self.bpb,
                d.len() <= usize::MAX,
                bps == b.byte_per_sector,
                spc == b.sector_per_cluster,
                cb == cluster_bytes(b),
                clusters == whole_clusters(b, self.length as int),
                clusters * cb <= self.length,
                self.length <= b0.len(),
                j <= clusters,
                start_at == j * cb,
                loc == chain_end(d, b, c0, j as nat),
                chain_ok(d, b, c0, clusters as nat),
                buf@.len() == b0.len(),
                buf@.subrange(0, start_at as int) == chain_data(d, b, c0, j as nat),
                buf@.subrange(start_at as int, b0.len() as int) == b0.subrange(
                    start_at as int,
                    b0.len() as int,
                ),
            decreases clusters - j,
        {
            proof {
                lemma_chain_step(d, b, c0, j as nat, clusters as nat);
                assert((j + 1) * cb <= clusters * cb) by (nonlinear_arith)
                    requires
                        j < clusters,
                        cb >= 0,
                ;
                assert((j + 1) * cb == j * cb + cb) by (nonlinear_arith);
            }
            let off = self.bpb.offset(loc);
            let mut tmp = vec![0u8; cb];
            let rr = self.partition.read(tmp.as_mut_slice(), off);
            if rr.is_err() {
                return Err(FileError::IllegalName);
            }
            let ghost before = buf@;
            copy_into(buf, start_at, tmp.as_slice());
            assert(buf@.subrange(0, start_at + cb) =~= before.subrange(0, start_at as int) + tmp@);
            assert(buf@.subrange(start_at + cb, b0.len() as int) =~= before.subrange(
                start_at + cb,
                b0.len() as int,
            ));
            assert forall|t: int| start_at + cb <= t < b0.len() implies before[t] == b0[t] by {
                assert(before.subrange(start_at as int, b0.len() as int)[t - start_at] == b0.subrange(
                    start_at as int,
                    b0.len() as int,
                )[t - start_at]);
            }
            assert(before.subrange(start_at + cb, b0.len() as int) =~= b0.subrange(
                start_at + cb,
                b0.len() as int,
            ));
            loc = self.get_fat_entry(loc);
            start_at = start_at + cb;
            j = j + 1;
        }
        proof {
            assert(sectors * bps <= self.length) by (nonlinear_arith)
                requires
                    clusters * cb + sectors * bps + bytes == self.length,
                    clusters * cb >= 0,
                    bytes >= 0,
            ;
            assert((sectors > 0 || bytes > 0) == (sectors * bps + bytes > 0)) by (nonlinear_arith)
                requires
                    bps > 0,
                    sectors >= 0,
                    bytes >= 0,
            ;
        }
        if sectors > 0 || bytes > 0 {
            let rest = sectors * bps + bytes;
            assert(rest == tail_bytes(b, self.length as int));
            let off = self.bpb.offset(loc);
            let mut tmp = vec![0u8; rest];
            let rr = self.partition.read(tmp.as_mut_slice(), off);
            if rr.is_err() {
                return Err(FileError::IllegalName);
            }
            let ghost before = buf@;
            assert(start_at + rest == self.length);
            copy_into(buf, start_at, tmp.as_slice());
            assert(before =~= before.subrange(0, start_at as int) + before.subrange(
                start_at as int,
                b0.len() as int,
            ));
            assert(before.subrange(start_at + rest, b0.len() as int) =~= b0.subrange(
                self.length as int,
                b0.len() as int,
            ));
            assert(buf@ =~= file_data(d, b, c0, self.length as int) + b0.subrange(
                self.length as int,
                b0.len() as int,
            ));
        } else {
            assert(tail_bytes(b, self.length as int) == 0);
            assert(start_at == self.length);
            assert(buf@ =~= buf@.subrange(0, start_at as int) + buf@.subrange(
                start_at as int,
                b0.len() as int,
            ));
            assert(buf@ =~= file_data(d, b, c0, self.length as int) + b0.subrange(
                self.length as int,
                b0.len() as int,
            ));
        }
        Ok(self.length)
    }

    /// The cluster that follows cluster `loc`: its FAT entry without the reserved top
    /// 4 bits.
    fn get_fat_entry(&self, loc: u32) -> (r: u32)
        requires
            self.bpb.reserved_sector as int * self.bpb.byte_per_sector as int + 4 * loc + 4
                <= self.partition.contents().len(),
            self.partition.contents().len() <= usize::MAX,
        ensures
            r == next_cluster(self.partition.contents(), self.bpb, loc as int),
    {
        let fat_addr = self.bpb.fat1();
        let offset = loc as usize * 4;
        let mut buf = [0u8; 4];
        let rr = self.partition.read(&mut buf, fat_addr + offset);
        if rr.is_err() {
            return 0;
        }
        let raw = read_le_u32(&buf);
        assert(raw & 0x0FFF_FFFFu32 == raw % 0x1000_0000) by (bit_vector);
        raw & 0x0FFF_FFFF
    }
}

/// Law: a cluster chain follows the FAT. After cluster `loc` comes the cluster that
/// FAT entry `loc` names (the little-endian word at byte `4 * loc` of the first FAT,
/// which starts after the reserved sectors, without its top 4 bits): the bytes of `n`
/// clusters from `loc` are those of `loc` followed by those of `n - 1` clusters from
/// that one, and the chain ends where the chain from that one ends.
pub proof fn lemma_chain_follows_fat(d: Seq<u8>, b: BIOSParameterBlock, loc: int, n: nat)
    requires
        n >= 1,
    ensures
        ({
            let next = le32(d, b.reserved_sector * b.byte_per_sector + 4 * loc) % 0x1000_0000;
            let at = (b.reserved_sector + b.num_fat * b.sector_per_fat + (loc - 2)
                * b.sector_per_cluster) * b.byte_per_sector;
            &&& chain_data(d, b, loc, n) == d.subrange(at, at + b.sector_per_cluster * b.byte_per_sector)
                + chain_data(d, b, next, (n - 1) as nat)
            &&& chain_end(d, b, loc, n) == chain_end(d, b, next, (n - 1) as nat)
            &&& chain_ok(d, b, loc, n) ==> chain_ok(d, b, next, (n - 1) as nat)
        }),
{
    let at = (b.reserved_sector + b.num_fat * b.sector_per_fat + (loc - 2) * b.sector_per_cluster)
        * b.byte_per_sector;
    assert(cluster_offset(b, loc) == at) by (nonlinear_arith)
        requires
            cluster_offset(b, loc) == (b.reserved_sector as int + b.num_fat as int
                * b.sector_per_fat as int + (loc - 2) * b.sector_per_cluster as int)
                * b.byte_per_sector as int,
            at == (b.reserved_sector + b.num_fat * b.sector_per_fat + (loc - 2)
                * b.sector_per_cluster) * b.byte_per_sector,
    ;
}

} // verus!
