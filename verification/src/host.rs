//! The host tool's decisions: which stage builds exist, which partitions of the disk
//! image take the loader, and where each stage and its parameters are written.
//!
//! Files, the GPT reader and the terminal stay with the caller; paths are bytes.
use vstd::prelude::*;
use vstd::string::StringSliceAdditionalSpecFns;

verus! {

/// Why the host tool stops.
#[derive(Debug, Clone, Copy, PartialEq, Eq, Structural)]
pub enum SomeError {
    InvalidBuildNumber,
    NoBIOSBootPartition,
    NoEFISystemPartition,
    NoDiskImage,
    SomeBuildsFailed,
    Stage1stOverSize,
    Stage2ndOverSize,
    Stage3rdOverSize,
    Stage4thOverSize,
}

fn push_all(v: &mut Vec<u8>, s: &[u8])
    ensures
        final(v)@ == old(v)@ + s@,
{
    let mut i: usize = 0;
    while i < s.len()
        invariant
            i <= s@.len(),
            v@ == old(v)@ + s@.subrange(0, i as int),
        decreases s@.len() - i,
    {
        v.push(s[i]);
        assert(v@ =~= old(v)@ + s@.subrange(0, i + 1));
        i = i + 1;
    }
    assert(s@.subrange(0, s@.len() as int) =~= s@);
}

/// The path of the built binary of `stage` under the target directory `root`.
pub fn stage_path(root: &[u8], stage: &str) -> (r: Vec<u8>)
    ensures
        r@ == root@ + (if root@.len() > 0 && root@.last() != 0x2F {
            seq![0x2Fu8]
        } else {
            Seq::empty()
        }) + stage.spec_bytes() + "/i586-".spec_bytes() + stage.spec_bytes()
            + "/release/".spec_bytes() + stage.spec_bytes() + ".bin".spec_bytes(),
{
    let mut v: Vec<u8> = Vec::new();
    push_all(&mut v, root);
    if root.len() > 0 && root[root.len() - 1] != 0x2F {
        v.push(0x2F);
    }
    let s = stage.as_bytes();
    push_all(&mut v, s);
    push_all(&mut v, "/i586-".as_bytes());
    push_all(&mut v, s);
    push_all(&mut v, "/release/".as_bytes());
    push_all(&mut v, s);
    push_all(&mut v, ".bin".as_bytes());
    proof {
        let sep = if root@.len() > 0 && root@.last() != 0x2F {
            seq![0x2Fu8]
        } else {
            Seq::empty()
        };
        assert(v@ =~= root@ + sep + stage.spec_bytes() + "/i586-".spec_bytes() + stage.spec_bytes()
            + "/release/".spec_bytes() + stage.spec_bytes() + ".bin".spec_bytes());
    }
    v
}

/// The built binaries of the four stages that exist.
#[derive(Debug)]
pub struct Builds {
    pub stage_1st: Option<Vec<u8>>,
    pub stage_2nd: Option<Vec<u8>>,
    pub stage_3rd: Option<Vec<u8>>,
    pub stage_4th: Option<Vec<u8>>,
}

/// `b` holds `path` exactly when `exists` says so.
pub open spec fn build_entry(b: Option<Vec<u8>>, exists: bool, path: Seq<u8>) -> bool {
    if exists {
        b matches Some(p) && p@ == path
    } else {
        b is None
    }
}

fn entry(root: &[u8], stage: &str, exists: bool) -> (r: Option<Vec<u8>>)
    ensures
        build_entry(r, exists, stage_path_spec_of(root@, stage)),
{
    if exists {
        Some(stage_path(root, stage))
    } else {
        None
    }
}

/// `stage_path_spec` of `stage` as the bytes of a string.
pub open spec fn stage_path_spec_of(root: Seq<u8>, stage: &str) -> Seq<u8> {
    root + (if root.len() > 0 && root.last() != 0x2F {
        seq![0x2Fu8]
    } else {
        Seq::empty()
    }) + stage.spec_bytes() + "/i586-".spec_bytes() + stage.spec_bytes()
        + "/release/".spec_bytes() + stage.spec_bytes() + ".bin".spec_bytes()
}

impl Builds {
    /// The builds under the target directory `root_target_dir`; `exists[i]` tells
    /// whether the binary of stage `i + 1` is there.
    pub fn new(root_target_dir: &[u8], exists: &[bool; 4]) -> (r: Self)
        ensures
            build_entry(r.stage_1st, exists[0], stage_path_spec_of(root_target_dir@, "stage_1st")),
            build_entry(r.stage_2nd, exists[1], stage_path_spec_of(root_target_dir@, "stage_2nd")),
            build_entry(r.stage_3rd, exists[2], stage_path_spec_of(root_target_dir@, "stage_3rd")),
            build_entry(r.stage_4th, exists[3], stage_path_spec_of(root_target_dir@, "stage_4th")),
    {
        Builds {
            stage_1st: entry(root_target_dir, "stage_1st", exists[0]),
            stage_2nd: entry(root_target_dir, "stage_2nd", exists[1]),
            stage_3rd: entry(root_target_dir, "stage_3rd", exists[2]),
            stage_4th: entry(root_target_dir, "stage_4th", exists[3]),
        }
    }

    /// Stage `n` (counted from 1) was built.
    pub open spec fn built(&self, n: int) -> bool {
        if n == 1 {
            self.stage_1st is Some
        } else if n == 2 {
            self.stage_2nd is Some
        } else if n == 3 {
            self.stage_3rd is Some
        } else {
            self.stage_4th is Some
        }
    }

    /// Whether the first `d` stages were all built; a count past four is refused.
    pub fn check(&self, d: usize) -> (r: Result<(), SomeError>)
        ensures
            d > 4 ==> r == Err::<(), SomeError>(SomeError::InvalidBuildNumber),
            d <= 4 && (forall|n: int| 1 <= n <= d ==> self.built(n)) ==> r is Ok,
            d <= 4 && !(forall|n: int| 1 <= n <= d ==> self.built(n)) ==> r == Err::<
                (),
                SomeError,
            >(SomeError::SomeBuildsFailed),
    {
        let mut result = true;
        let mut n: usize = 1;
        while n <= d
            invariant
                1 <= n,
                n <= d + 1,
                n <= 5,
                result == (forall|k: int| 1 <= k < n ==> self.built(k)),
            decreases d + 1 - n,
        {
            let ghost prev = result;
            if n == 1 {
                result = result && self.stage_1st.is_some();
            } else if n == 2 {
                result = result && self.stage_2nd.is_some();
            } else if n == 3 {
                result = result && self.stage_3rd.is_some();
            } else if n == 4 {
                result = result && self.stage_4th.is_some();
            } else {
                return Err(SomeError::InvalidBuildNumber);
            }
            proof {
                assert(result == (prev && self.built(n as int)));
                if result {
                    assert forall|k: int| 1 <= k < n + 1 implies self.built(k) by {
                        if k < n {
                            assert(prev ==> self.built(k));
                        }
                    }
                } else if !self.built(n as int) {
                    assert(!self.built(n as int));
                } else {
                    assert(!(forall|k: int| 1 <= k < n ==> self.built(k)));
                }
            }
            n = n + 1;
        }
        if result {
            Ok(())
        } else {
            Err(SomeError::SomeBuildsFailed)
        }
    }
}

/// A partition of the disk image: its type GUID in upper-case hyphenated text, its
/// first and last sector.
#[derive(Debug)]
pub struct GptPart {
    pub type_guid: Vec<u8>,
    pub first_lba: u64,
    pub last_lba: u64,
}

/// The type GUID of a BIOS boot partition.
pub open spec fn bios_boot_guid() -> Seq<u8> {
    "21686148-6449-6E6F-744E-656564454649".spec_bytes()
}

/// The type GUID of an EFI system partition.
pub open spec fn efi_system_guid() -> Seq<u8> {
    "C12A7328-F81F-11D2-BA4B-00A0C93EC93B".spec_bytes()
}

/// The last of the first `n` partitions whose type is `guid`, or -1.
pub open spec fn last_of_type(parts: Seq<GptPart>, guid: Seq<u8>, n: int) -> int
    decreases n,
{
    if n <= 0 {
        -1
    } else if parts[n - 1].type_guid@ == guid {
        n - 1
    } else {
        last_of_type(parts, guid, n - 1)
    }
}

fn bytes_equal(a: &[u8], b: &[u8]) -> (r: bool)
    ensures
        r == (a@ == b@),
{
    if a.len() != b.len() {
        return false;
    }
    let mut i: usize = 0;
    while i < a.len()
        invariant
            a@.len() == b@.len(),
            i <= a@.len(),
            forall|j: int| 0 <= j < i ==> a@[j] == b@[j],
        decreases a@.len() - i,
    {
        if a[i] != b[i] {
            return false;
        }
        i = i + 1;
    }
    assert(a@ =~= b@);
    true
}

/// The first and last sector of the BIOS boot partition of the disk image whose
/// partitions are `parts` (the last one listed counts), provided the image also has an
/// EFI system partition.
pub fn diskimg_check(parts: &[GptPart]) -> (r: Result<(u64, u64), SomeError>)
    ensures
        ({
            let b = last_of_type(parts@, bios_boot_guid(), parts@.len() as int);
            let e = last_of_type(parts@, efi_system_guid(), parts@.len() as int);
            &&& b < 0 ==> r == Err::<(u64, u64), SomeError>(SomeError::NoBIOSBootPartition)
            &&& b >= 0 && e < 0 ==> r == Err::<(u64, u64), SomeError>(
                SomeError::NoEFISystemPartition,
            )
            &&& b >= 0 && e >= 0 ==> r == Ok::<(u64, u64), SomeError>(
                (parts@[b].first_lba, parts@[b].last_lba),
            )
        }),
{
    let bios = "21686148-6449-6E6F-744E-656564454649".as_bytes();
    let efi = "C12A7328-F81F-11D2-BA4B-00A0C93EC93B".as_bytes();
    let mut first: Option<u64> = None;
    let mut last: Option<u64> = None;
    let mut esp: Option<u64> = None;
    let mut i: usize = 0;
    while i < parts.len()
        invariant
            i <= parts@.len(),
            bios@ == bios_boot_guid(),
            efi@ == efi_system_guid(),
            ({
                let b = last_of_type(parts@, bios_boot_guid(), i as int);
                &&& b < 0 ==> first is None && last is None
                &&& b >= 0 ==> first == Some(parts@[b].first_lba) && last == Some(
                    parts@[b].last_lba,
                )
                &&& -1 <= b < i
            }),
            ({
                let e = last_of_type(parts@, efi_system_guid(), i as int);
                &&& e < 0 ==> esp is None
                &&& e >= 0 ==> esp == Some(parts@[e].first_lba)
                &&& -1 <= e < i
            }),
        decreases parts@.len() - i,
    {
        let p = &parts[i];
        if bytes_equal(p.type_guid.as_slice(), bios) {
            first = Some(p.first_lba);
            last = Some(p.last_lba);
        }
        if bytes_equal(p.type_guid.as_slice(), efi) {
            esp = Some(p.first_lba);
        }
        i = i + 1;
    }
    let start = match first {
        Some(v) => v,
        None => return Err(SomeError::NoBIOSBootPartition),
    };
    let end = match last {
        Some(v) => v,
        None => return Err(SomeError::NoBIOSBootPartition),
    };
    match esp {
        Some(_) => {},
        None => return Err(SomeError::NoEFISystemPartition),
    }
    Ok((start, end))
}


/// What a write to the disk image puts at its offset.
#[derive(Debug, Clone, Copy, PartialEq, Eq, Structural)]
pub enum WriteData {
    /// The whole binary of the stage with this number (1 to 4).
    Stage(u8),
    /// The two little-endian bytes of the value.
    Le16(u16),
}

/// One write to the disk image.
#[derive(Debug, Clone, Copy, PartialEq, Eq, Structural)]
pub struct DiskWrite {
    pub offset: u64,
    pub data: WriteData,
}

/// The sectors that a binary of `len` bytes is given.
pub open spec fn sectors_for(len: int) -> int {
    len / 512 + 1
}

/// A write of `data` at `offset`.
pub open spec fn dw(offset: int, data: WriteData) -> DiskWrite {
    DiskWrite { offset: offset as u64, data }
}

/// The writes and outcome from the fourth stage on, after the writes `w`, with `total`
/// sectors of the boot partition used.
pub open spec fn plan4(p: Seq<bool>, sizes: Seq<u64>, b0: int, b1: int, debug: int, w: Seq<DiskWrite>, total: int) -> (Seq<DiskWrite>, Result<(), SomeError>) {
    let s4 = sectors_for(sizes[3] as int);
    if !p[3] || debug < 4 {
        (w, Ok(()))
    } else if b1 < b0 + total + s4 {
        (w, Err(SomeError::Stage4thOverSize))
    } else {
        (w + seq![dw(b0 * 512 + 4, WriteData::Le16(s4 as u16)), dw((b0 + total) * 512, WriteData::Stage(4))], Ok(()))
    }
}

/// The writes and outcome from the third stage on.
pub open spec fn plan3(p: Seq<bool>, sizes: Seq<u64>, b0: int, b1: int, debug: int, w: Seq<DiskWrite>, total: int) -> (Seq<DiskWrite>, Result<(), SomeError>) {
    let s3 = sectors_for(sizes[2] as int);
    if !p[2] {
        plan4(p, sizes, b0, b1, debug, w, total)
    } else if debug < 3 {
        (w, Ok(()))
    } else if b1 < b0 + total + s3 {
        (w, Err(SomeError::Stage3rdOverSize))
    } else {
        plan4(p, sizes, b0, b1, debug, w + seq![
            dw(b0 * 512, WriteData::Le16((total + b0) as u16)),
            dw(b0 * 512 + 2, WriteData::Le16(s3 as u16)),
            dw((b0 + total) * 512, WriteData::Stage(3)),
        ], total + s3)
    }
}

/// The writes and outcome from the second stage on.
pub open spec fn plan2(p: Seq<bool>, sizes: Seq<u64>, b0: int, b1: int, debug: int, w: Seq<DiskWrite>) -> (Seq<DiskWrite>, Result<(), SomeError>) {
    let s2 = sectors_for(sizes[1] as int);
    if !p[1] {
        plan3(p, sizes, b0, b1, debug, w, 0)
    } else if debug < 2 {
        (w, Ok(()))
    } else if b1 < b0 + s2 {
        (w, Err(SomeError::Stage2ndOverSize))
    } else {
        plan3(p, sizes, b0, b1, debug, w + seq![
            dw(442, WriteData::Le16(s2 as u16)),
            dw(444, WriteData::Le16(b0 as u16)),
            dw(b0 * 512, WriteData::Stage(2)),
        ], s2)
    }
}

/// The writes that put the built stages `p` of sizes `sizes` on a disk image whose BIOS
/// boot partition runs from sector `b0` to `b1`, up to stage `debug`, and the outcome:
/// the first stage goes to the boot sector, the second to the start of the partition
/// with its size and position recorded in the boot sector, the third and fourth after
/// it with their position and sizes recorded at the start of the partition. The
/// writes made before a stage is found too large stay.
pub open spec fn disk_plan(p: Seq<bool>, sizes: Seq<u64>, b0: int, b1: int, debug: int) -> (Seq<DiskWrite>, Result<(), SomeError>) {
    if p[0] {
        if sizes[0] > 446 {
            (Seq::empty(), Err(SomeError::Stage1stOverSize))
        } else {
            plan2(p, sizes, b0, b1, debug, seq![dw(0, WriteData::Stage(1))])
        }
    } else {
        plan2(p, sizes, b0, b1, debug, Seq::empty())
    }
}

/// Which stages `b` holds.
pub open spec fn built_flags(b: &Builds) -> Seq<bool> {
    seq![b.stage_1st is Some, b.stage_2nd is Some, b.stage_3rd is Some, b.stage_4th is Some]
}

/// The largest sector number for which byte offsets fit in 64 bits.
pub const MAX_LBA: u64 = 0x007F_FFFF_FFFF_FFFF;

/// The writes that burn the built stages, whose binaries are `sizes` bytes long, to
/// the disk image whose BIOS boot partition is `bbp`, for debug level `debug`, and
/// whether the layout fits. The caller makes the writes in order, then reports the
/// outcome.
pub fn write_into_disk(builds: &Builds, sizes: &[u64; 4], bbp: (u64, u64), debug: usize) -> (r: (Vec<DiskWrite>, Result<(), SomeError>))
    requires
        bbp.0 <= MAX_LBA,
        bbp.1 <= MAX_LBA,
    ensures
        (r.0@, r.1) == disk_plan(built_flags(builds), sizes@, bbp.0 as int, bbp.1 as int, debug as int),
{
    let ghost p = built_flags(builds);
    let b0 = bbp.0;
    let b1 = bbp.1;
    let mut w: Vec<DiskWrite> = Vec::new();
    if builds.stage_1st.is_some() {
        if 446 < sizes[0] {
            return (w, Err(SomeError::Stage1stOverSize));
        }
        w.push(DiskWrite { offset: 0, data: WriteData::Stage(1) });
        assert(w@ =~= seq![dw(0, WriteData::Stage(1))]);
    } else {
        assert(w@ =~= Seq::<DiskWrite>::empty());
    }
    // stage 2
    let ghost w1 = w@;
    let mut total: u64 = 0;
    if builds.stage_2nd.is_some() {
        if debug < 2 {
            return (w, Ok(()));
        }
        let s2 = sizes[1] / 512 + 1;
        if b1 < b0 + total + s2 {
            return (w, Err(SomeError::Stage2ndOverSize));
        }
        w.push(DiskWrite { offset: 442, data: WriteData::Le16(s2 as u16) });
        w.push(DiskWrite { offset: 444, data: WriteData::Le16(b0 as u16) });
        w.push(DiskWrite { offset: b0 * 512, data: WriteData::Stage(2) });
        total = total + s2;
        assert(w@ =~= w1 + seq![
            dw(442, WriteData::Le16(s2 as u16)),
            dw(444, WriteData::Le16(b0 as u16)),
            dw(b0 * 512, WriteData::Stage(2)),
        ]);
    }
    assert(plan2(p, sizes@, b0 as int, b1 as int, debug as int, w1) == plan3(p, sizes@, b0 as int, b1 as int, debug as int, w@, total as int));
    // stage 3
    let ghost w2 = w@;
    let ghost t2 = total;
    if builds.stage_3rd.is_some() {
        if debug < 3 {
            return (w, Ok(()));
        }
        let s3 = sizes[2] / 512 + 1;
        if b1 < b0 + total + s3 {
            return (w, Err(SomeError::Stage3rdOverSize));
        }
        w.push(DiskWrite { offset: b0 * 512, data: WriteData::Le16((total + b0) as u16) });
        w.push(DiskWrite { offset: b0 * 512 + 2, data: WriteData::Le16(s3 as u16) });
        w.push(DiskWrite { offset: (b0 + total) * 512, data: WriteData::Stage(3) });
        total = total + s3;
        assert(w@ =~= w2 + seq![
            dw(b0 * 512, WriteData::Le16((t2 + b0) as u16)),
            dw(b0 * 512 + 2, WriteData::Le16(s3 as u16)),
            dw((b0 + t2) * 512, WriteData::Stage(3)),
        ]);
    }
    assert(plan3(p, sizes@, b0 as int, b1 as int, debug as int, w2, t2 as int) == plan4(p, sizes@, b0 as int, b1 as int, debug as int, w@, total as int));
    // stage 4
    let ghost w3 = w@;
    if builds.stage_4th.is_some() {
        if debug < 4 {
            return (w, Ok(()));
        }
        let s4 = sizes[3] / 512 + 1;
        if b1 < b0 + total + s4 {
            return (w, Err(SomeError::Stage4thOverSize));
        }
        w.push(DiskWrite { offset: b0 * 512 + 4, data: WriteData::Le16(s4 as u16) });
        w.push(DiskWrite { offset: (b0 + total) * 512, data: WriteData::Stage(4) });
        assert(w@ =~= w3 + seq![
            dw(b0 * 512 + 4, WriteData::Le16(s4 as u16)),
            dw((b0 + total) * 512, WriteData::Stage(4)),
        ]);
    }
    (w, Ok(()))
}

} // verus!
