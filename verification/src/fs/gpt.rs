//! The GUID partition table, and partitions as block devices.
use vstd::prelude::*;
use crate::fs::blkdev::{BlockDevice, BIOError};
use crate::mem::le64;

verus! {

/// The partition type GUID of an EFI system partition, as stored on disk.
pub open spec fn efi_system_partition_type() -> Seq<u8> {
    seq![
        0x28u8, 0x73, 0x2A, 0xC1, 0x1F, 0xF8, 0xD2, 0x11, 0xBA, 0x4B, 0x00, 0xA0, 0xC9, 0x3E,
        0xC9, 0x3B,
    ]
}

/// The first 1280 bytes of the partition entry array: ten entries of 128 bytes.
pub struct GPT {
    data: [u8; 1280],
}

/// A partition entry.
#[derive(Copy, Clone, Debug)]
pub struct GPTEntry {
    ptype: [u8; 16],
    guid: [u8; 16],
    start_lba: u64,
    last_lba: u64,
    attr: u64,
    name: [u8; 72],
}

/// A partition: its first sector and its length in sectors.
#[derive(Copy, Clone, Debug, PartialEq, Eq)]
pub struct Partition {
    pub start_lba: u32,
    pub length: usize,
}

impl View for GPT {
    type V = Seq<u8>;

    closed spec fn view(&self) -> Seq<u8> {
        self.data@
    }
}

/// The 128 bytes of entry `k`.
pub open spec fn gpt_entry(data: Seq<u8>, k: int) -> Seq<u8> {
    data.subrange(128 * k, 128 * k + 128)
}

/// The index of the first EFI system partition among entries `k..10`, or -1.
pub open spec fn first_esp(data: Seq<u8>, k: int) -> int
    decreases 10 - k,
{
    if k < 0 || k >= 10 {
        -1
    } else if gpt_entry(data, k).subrange(0, 16) == efi_system_partition_type() {
        k
    } else {
        first_esp(data, k + 1)
    }
}

/// The partition that an entry describes: its first sector, truncated to 32 bits, and
/// its number of sectors.
pub open spec fn entry_partition(e: Seq<u8>) -> Partition {
    Partition {
        start_lba: le64(e, 32) as u32,
        length: (le64(e, 40) - le64(e, 32) + 1) as usize,
    }
}

/// The length of the partition an entry describes can be computed in 64 bits.
pub open spec fn entry_length_ok(e: Seq<u8>) -> bool {
    le64(e, 32) <= le64(e, 40) && le64(e, 40) - le64(e, 32) < u64::MAX
}

impl GPTEntry {
    pub closed spec fn type_guid(&self) -> Seq<u8> {
        self.ptype@
    }

    pub closed spec fn first_lba(&self) -> u64 {
        self.start_lba
    }

    pub closed spec fn last_lba(&self) -> u64 {
        self.last_lba
    }

    /// The entry held in the 128 bytes of `b` at `at`.
    fn from_bytes(b: &[u8], at: usize) -> (r: GPTEntry)
        requires
            at + 128 <= b@.len(),
        ensures
            r.type_guid() == b@.subrange(at as int, at + 16),
            r.first_lba() == le64(b@, at + 32),
            r.last_lba() == le64(b@, at + 40),
    {
        let bl = b.len();
        let mut ptype = [0u8; 16];
        let mut guid = [0u8; 16];
        let mut name = [0u8; 72];
        let mut i: usize = 0;
        while i < 16
            invariant
                i <= 16,
                at + 128 <= b@.len(),
                bl == b@.len(),
                forall|j: int| 0 <= j < i ==> ptype@[j] == b@[at + j],
            decreases 16 - i,
        {
            ptype[i] = b[at + i];
            guid[i] = b[at + 16 + i];
            i = i + 1;
        }
        let mut j: usize = 0;
        while j < 72
            invariant
                j <= 72,
                at + 128 <= b@.len(),
                bl == b@.len(),
            decreases 72 - j,
        {
            name[j] = b[at + 56 + j];
            j = j + 1;
        }
        assert(ptype@ =~= b@.subrange(at as int, at + 16));
        assert(at + 48 + 8 <= bl);
        GPTEntry {
            ptype,
            guid,
            start_lba: read_le_u64(b, at + 32),
            last_lba: read_le_u64(b, at + 40),
            attr: read_le_u64(b, at + 48),
            name,
        }
    }

    /// The entry describes an EFI system partition.
    pub fn is_efi_system_partition(&self) -> (r: bool)
        ensures
            r == (self.type_guid() == efi_system_partition_type()),
    {
        let efisysprt: [u8; 16] = [
            0x28, 0x73, 0x2A, 0xC1, 0x1F, 0xF8, 0xD2, 0x11, 0xBA, 0x4B, 0x00, 0xA0, 0xC9, 0x3E,
            0xC9, 0x3B,
        ];
        assert(efisysprt@ =~= efi_system_partition_type());
        let mut i: usize = 0;
        while i < 16
            invariant
                i <= 16,
                efisysprt@ == efi_system_partition_type(),
                forall|j: int| 0 <= j < i ==> self.ptype@[j] == efisysprt@[j],
            decreases 16 - i,
        {
            if self.ptype[i] != efisysprt[i] {
                assert(self.ptype@[i as int] != efi_system_partition_type()[i as int]);
                return false;
            }
            i = i + 1;
        }
        assert(self.ptype@ =~= efi_system_partition_type());
        true
    }

    /// The first sector, truncated to 32 bits.
    pub fn starting_lba(&self) -> (r: u32)
        ensures
            r == self.first_lba() as u32,
    {
        self.start_lba as u32
    }

    /// The number of sectors.
    pub fn partition_length(&self) -> (r: usize)
        requires
            self.first_lba() <= self.last_lba(),
            self.last_lba() - self.first_lba() < u64::MAX,
        ensures
            r == (self.last_lba() - self.first_lba() + 1) as usize,
    {
        (self.last_lba - self.start_lba + 1) as usize
    }
}

/// Little-endian 64-bit value of the eight bytes of `b` at `at`.
fn read_le_u64(b: &[u8], at: usize) -> (r: u64)
    requires
        at + 8 <= b@.len(),
    ensures
        r == le64(b@, at as int),
{
    let lo = (b[at] as u64) + (b[at + 1] as u64) * 256 + ((b[at + 2] as u64) + (b[at + 3] as u64)
        * 256) * 65536;
    let hi = (b[at + 4] as u64) + (b[at + 5] as u64) * 256 + ((b[at + 6] as u64) + (b[at + 7]
        as u64) * 256) * 65536;
    lo + hi * 0x1_0000_0000
}

impl GPT {
    /// Read the partition entry array, which starts at byte 1024 of the disk.
    pub fn new<T: BlockDevice>(disk: &T) -> (r: GPT)
        requires
            disk.contents().len() >= 2 * 512 + 1280,
        ensures
            r@ == disk.contents().subrange(1024, 2304),
    {
        let mut data = [0u8; 1280];
        let offset = 2 * 512;
        let rr = disk.read(&mut data, offset);
        assert(rr is Ok);
        GPT { data }
    }

    /// The first EFI system partition among the ten entries.
    pub fn get_efi_system_partition(&self) -> (r: Option<Partition>)
        requires
            first_esp(self@, 0) >= 0 ==> entry_length_ok(gpt_entry(self@, first_esp(self@, 0))),
        ensures
            first_esp(self@, 0) < 0 ==> r is None,
            first_esp(self@, 0) >= 0 ==> r == Some(entry_partition(gpt_entry(self@, first_esp(self@, 0)))),
    {
        let mut k: usize = 0;
        while k < 10
            invariant
                k <= 10,
                first_esp(self@, 0) == first_esp(self@, k as int),
                first_esp(self@, 0) >= 0 ==> entry_length_ok(gpt_entry(self@, first_esp(self@, 0))),
                self@.len() == 1280,
            decreases 10 - k,
        {
            let entry = GPTEntry::from_bytes(self.data.as_slice(), 128 * k);
            assert(entry.type_guid() == gpt_entry(self@, k as int).subrange(0, 16));
            if entry.is_efi_system_partition() {
                let ghost e = gpt_entry(self@, k as int);
                assert(first_esp(self@, k as int) == k);
                assert(le64(self@, 128 * k + 32) == le64(e, 32));
                assert(le64(self@, 128 * k + 40) == le64(e, 40));
                let start_lba = entry.starting_lba();
                let length = entry.partition_length();
                return Some(Partition { start_lba, length });
            }
            k = k + 1;
        }
        None
    }
}

impl Partition {
    /// Where the bytes `offset .. offset + len` of the partition lie on the disk: their
    /// disk offset, or `IOError` when they do not fit in the partition's sectors.
    pub fn locate(&self, len: usize, offset: usize) -> (r: Result<usize, BIOError>)
        requires
            len + offset <= usize::MAX,
            self.start_lba as int * 512 + offset <= usize::MAX,
        ensures
            (len + offset + 511) / 512 <= self.length ==> r == Ok::<usize, BIOError>(
                (self.start_lba as int * 512 + offset) as usize,
            ),
            (len + offset + 511) / 512 > self.length ==> r == Err::<usize, BIOError>(
                BIOError::IOError,
            ),
    {
        let end = len + offset;
        let load_sectors = end / 512 + if end % 512 != 0 {
            1
        } else {
            0
        };
        let real_offset = (self.start_lba as usize * 512) + offset;
        if load_sectors <= self.length {
            Ok(real_offset)
        } else {
            Err(BIOError::IOError)
        }
    }
}

/// A partition of a disk, seen as a block device over its own sectors.
pub struct PartitionDevice<'a, D: BlockDevice> {
    disk: &'a D,
    partition: Partition,
}

pub open spec fn min(a: int, b: int) -> int {
    if a < b {
        a
    } else {
        b
    }
}

impl<'a, D: BlockDevice> PartitionDevice<'a, D> {
    #[verifier::type_invariant]
    closed spec fn wf(&self) -> bool {
        &&& self.partition.start_lba as int * 512 <= self.disk.contents().len()
        &&& self.disk.contents().len() <= usize::MAX
    }

    pub closed spec fn disk(&self) -> &'a D {
        self.disk
    }

    pub closed spec fn partition(&self) -> Partition {
        self.partition
    }

    /// The device for `partition` of `disk`, whose first sector lies on the disk.
    pub fn new(disk: &'a D, partition: Partition) -> (r: Self)
        requires
            partition.start_lba as int * 512 <= disk.contents().len(),
            disk.contents().len() <= usize::MAX,
        ensures
            r.disk() == disk,
            r.partition() == partition,
    {
        PartitionDevice { disk, partition }
    }
}

/// The bytes of `p` that lie on a disk holding `d`.
pub open spec fn partition_bytes(d: Seq<u8>, p: Partition) -> Seq<u8> {
    let s = p.start_lba as int * 512;
    d.subrange(s, min(d.len() as int, s + p.length as int * 512))
}

impl<'a, D: BlockDevice> BlockDevice for PartitionDevice<'a, D> {
    closed spec fn contents(&self) -> Seq<u8> {
        partition_bytes(self.disk.contents(), self.partition)
    }

    /// Check that the bytes lie in the partition, then read them from the disk.
    fn read(&self, buf: &mut [u8], offset: usize) -> (r: Result<(), BIOError>) {
        proof {
            use_type_invariant(self);
        }
        let len = buf.len();
        let ghost d = self.disk.contents();
        let ghost p = self.partition;
        let s = self.partition.start_lba as usize * 512;
        if offset > usize::MAX - len || offset > usize::MAX - s {
            return Err(BIOError::IOError);
        }
        match self.partition.locate(len, offset) {
            Err(e) => {
                assert((len + offset + 511) / 512 > p.length);
                assert(offset + len > p.length as int * 512);
                Err(e)
            },
            Ok(at) => {
                assert((len + offset + 511) / 512 <= p.length);
                assert(offset + len <= p.length as int * 512);
                let rr = self.disk.read(buf, at);
                proof {
                    if rr is Ok {
                        assert(final(buf)@ =~= partition_bytes(d, p).subrange(
                            offset as int,
                            offset + len,
                        ));
                    }
                }
                rr
            },
        }
    }
}

/// Law: the EFI system partition chosen is the first of the ten entries whose type
/// GUID (its first 16 bytes) is that of an EFI system partition; there is one exactly
/// when some entry has that type.
pub proof fn lemma_first_esp(data: Seq<u8>)
    requires
        data.len() == 1280,
    ensures
        (exists|k: int| 0 <= k < 10 && #[trigger] data.subrange(128 * k, 128 * k + 16)
            == efi_system_partition_type()) <==> first_esp(data, 0) >= 0,
        first_esp(data, 0) >= 0 ==> {
            let f = first_esp(data, 0);
            &&& f < 10
            &&& data.subrange(128 * f, 128 * f + 16) == efi_system_partition_type()
            &&& forall|j: int| 0 <= j < f ==> #[trigger] data.subrange(128 * j, 128 * j + 16)
                != efi_system_partition_type()
        },
{
    lemma_first_esp_from(data, 0);
}

proof fn lemma_first_esp_from(data: Seq<u8>, k: int)
    requires
        data.len() == 1280,
        0 <= k <= 10,
    ensures
        (exists|j: int| k <= j < 10 && #[trigger] data.subrange(128 * j, 128 * j + 16)
            == efi_system_partition_type()) <==> first_esp(data, k) >= 0,
        first_esp(data, k) >= 0 ==> {
            let f = first_esp(data, k);
            &&& k <= f < 10
            &&& data.subrange(128 * f, 128 * f + 16) == efi_system_partition_type()
            &&& forall|j: int| k <= j < f ==> #[trigger] data.subrange(128 * j, 128 * j + 16)
                != efi_system_partition_type()
        },
    decreases 10 - k,
{
    if k < 10 {
        assert(gpt_entry(data, k).subrange(0, 16) =~= data.subrange(128 * k, 128 * k + 16));
        lemma_first_esp_from(data, k + 1);
        if data.subrange(128 * k, 128 * k + 16) != efi_system_partition_type() {
            assert forall|j: int| k <= j < 10 && #[trigger] data.subrange(128 * j, 128 * j + 16)
                == efi_system_partition_type() implies k + 1 <= j by {}
        }
    }
}

} // verus!
