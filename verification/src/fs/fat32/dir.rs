//! FAT32 directories: finding an entry by short or long (VFAT) name.
use vstd::prelude::*;
use vstd::utf8::valid_utf8;
use vstd::string::StringSliceAdditionalSpecFns;
use crate::fs::blkdev::BlockDevice;
use crate::fs::fat32::{BIOSParameterBlock, offset_ok, cluster_offset, BUFFER_SIZE};
use crate::fs::fat32::file::File;
use crate::mem::{le16, le32};

verus! {

#[derive(Debug, Copy, Clone, PartialEq, Eq)]
pub enum DirError {
    NoMatch,
    NoMatchDir,
    NoMatchFile,
    InvalidName,
}

/// What a directory entry decides during a lookup.
#[derive(Debug, Copy, Clone, PartialEq, Eq)]
pub enum ScanStep {
    /// This entry is the one looked for.
    Found,
    /// The directory ends here.
    End,
    /// Go on with the next entry, with this length of the name still to match, this
    /// many entries to skip, and whether a long name has been matched.
    Next(usize, usize, bool),
}

#[derive(Debug, Copy, Clone, PartialEq, Eq)]
enum NameType {
    Short,
    Long,
}

/// A directory of a FAT32 volume.
pub struct Dir<'a, T: BlockDevice> {
    pub partition: &'a T,
    pub bpb: BIOSParameterBlock,
    pub dir_name: [u8; 11],
    pub dir_cluster: u32,
    pub length: u32,
}

// ---------------------------------------------------------------------------
// Names as UTF-8 bytes.

/// A byte that continues a multi-byte UTF-8 character.
pub open spec fn is_cont(b: u8) -> bool {
    0x80 <= b < 0xC0
}

/// The number of characters of the UTF-8 text `s`.
pub open spec fn char_count(s: Seq<u8>) -> int
    decreases s.len(),
{
    if s.len() == 0 {
        0
    } else {
        char_count(s.drop_last()) + if is_cont(s.last()) {
            0int
        } else {
            1int
        }
    }
}

/// The number of bytes that the first `end` characters of `s` take.
pub open spec fn slice_index(s: Seq<u8>, end: int) -> int
    decreases s.len(),
{
    if s.len() == 0 {
        0
    } else {
        slice_index(s.drop_last(), end) + if char_count(s) <= end {
            1int
        } else {
            0int
        }
    }
}

/// A character that a FAT name may not hold: one of `\ / : * ? " < > |`.
pub open spec fn is_forbidden(b: u8) -> bool {
    b == 0x5C || b == 0x2F || b == 0x3A || b == 0x2A || b == 0x3F || b == 0x22 || b == 0x3C
        || b == 0x3E || b == 0x7C
}

/// The index of the first `c` in `s` at or after `i`, or -1.
pub open spec fn find_byte(s: Seq<u8>, c: u8, i: int) -> int
    decreases s.len() - i,
{
    if i < 0 || i >= s.len() {
        -1
    } else if s[i] == c {
        i
    } else {
        find_byte(s, c, i + 1)
    }
}

/// A name that fits the 8.3 form: ASCII, no blank, at most 8 bytes before the first
/// dot and 3 after it.
pub open spec fn is_short_name(s: Seq<u8>) -> bool {
    let d = find_byte(s, 0x2E, 0);
    &&& forall|i: int| 0 <= i < s.len() ==> s[i] < 0x80
    &&& forall|i: int| 0 <= i < s.len() ==> s[i] != 0x20
    &&& if d < 0 {
        s.len() <= 8
    } else {
        d <= 8 && s.len() - d - 1 <= 3
    }
}

/// ASCII lower case of `b`.
pub open spec fn lower(b: u8) -> u8 {
    if 0x41 <= b <= 0x5A {
        (b + 32) as u8
    } else {
        b
    }
}

/// `a` and `b` are equal but for the case of ASCII letters.
pub open spec fn eq_ignore_case(a: Seq<u8>, b: Seq<u8>) -> bool {
    &&& a.len() == b.len()
    &&& forall|i: int| 0 <= i < a.len() ==> lower(a[i]) == lower(b[i])
}

// ---------------------------------------------------------------------------
// Directory entries.

/// The UTF-16 code unit at `i` of a long-name entry.
pub open spec fn unit_at(e: Seq<u8>, i: int) -> int {
    le16(e, i)
}

/// The bytes that a code unit turns into: one byte below 0x80, two below 0x800 (with a
/// lead byte of 0xC0), three otherwise.
pub open spec fn encode_unit(u: int) -> Seq<u8> {
    if u <= 0x7F {
        seq![u as u8]
    } else if u <= 0x7FF {
        seq![0xC0u8, (0x80 + u % 64) as u8]
    } else {
        seq![(0xE0 + u / 4096) as u8, (0x80 + (u / 64) % 64) as u8, (0x80 + u % 64) as u8]
    }
}

/// The bytes of the code units at `i, i + 2, ..` below `end`, up to a NUL unit.
pub open spec fn range_bytes(e: Seq<u8>, i: int, end: int) -> Seq<u8>
    decreases end + 1 - i,
{
    if i >= end {
        seq![]
    } else if e[i] == 0 && e[i + 1] == 0 {
        seq![]
    } else {
        encode_unit(unit_at(e, i)) + range_bytes(e, i + 2, end)
    }
}

/// The part of a name that a long-name entry holds, as bytes; a run whose first byte
/// is 0xFF is skipped.
pub open spec fn long_name_bytes(e: Seq<u8>) -> Seq<u8> {
    (if e[0x01] != 0xFF {
        range_bytes(e, 0x01, 0x0A)
    } else {
        seq![]
    }) + (if e[0x0E] != 0xFF {
        range_bytes(e, 0x0E, 0x19)
    } else {
        seq![]
    }) + (if e[0x1C] != 0xFF {
        range_bytes(e, 0x1C, 0x1F)
    } else {
        seq![]
    })
}

/// The non-blank bytes of an 8.3 entry from `i` on, with a dot before the extension
/// when the extension's first byte is not blank.
pub open spec fn short_from(e: Seq<u8>, i: int) -> Seq<u8>
    decreases 11 - i,
{
    if i >= 11 || i < 0 {
        seq![]
    } else if e[i] != 0x20 {
        (if i == 8 {
            seq![0x2Eu8]
        } else {
            seq![]
        }) + seq![e[i]] + short_from(e, i + 1)
    } else {
        short_from(e, i + 1)
    }
}

/// The name that an 8.3 entry holds.
pub open spec fn short_name_bytes(e: Seq<u8>) -> Seq<u8> {
    short_from(e, 0)
}

/// The 32 bytes of entry `k` of the directory that starts at byte `start` of `d`.
pub open spec fn dir_entry(d: Seq<u8>, start: int, k: int) -> Seq<u8> {
    d.subrange(start + 32 * k, start + 32 * k + 32)
}

/// The characters before position `end` at which the long-name part of a name that
/// is `len` characters long starts when `len` exceeds 13.
pub open spec fn part_start(copy: Seq<u8>) -> int {
    let len = char_count(copy);
    if len <= 13 {
        0
    } else {
        slice_index(
            copy,
            13 * (if len % 13 == 0 {
                len / 13 - 1
            } else {
                len / 13
            }),
        )
    }
}

/// What one directory entry `e` decides when the scan is not skipping: the entry is
/// the answer, it ends the directory, or the scan goes on with a new state; `None` when
/// the entry's name is not UTF-8.
///
/// `copy_len` is the length of the front of the name still to be matched against
/// long-name entries and `done` whether a long name has been matched completely, so
/// that the next entry is the answer.
#[verifier::opaque]
pub open spec fn entry_step(
    e: Seq<u8>,
    name: Seq<u8>,
    short: bool,
    copy_len: int,
    done: bool,
) -> Option<ScanStep> {
    if e[0] == 0 {
        Some(ScanStep::End)
    } else if done {
        Some(ScanStep::Found)
    } else if e[0] == 0xE5 {
        Some(ScanStep::Next(copy_len as usize, 0, done))
    } else if e[0x0B] == 0x0F {
        let count = e[0] % 32;
        if short {
            Some(ScanStep::Next(copy_len as usize, count as usize, done))
        } else {
            let part = long_name_bytes(e);
            let copy = name.subrange(0, copy_len);
            let start_at = part_start(copy);
            if !valid_utf8(part) {
                None
            } else if copy.subrange(start_at, copy_len) != part {
                Some(ScanStep::Next(name.len() as usize, count as usize, done))
            } else if start_at == 0 && count == 1 {
                Some(ScanStep::Next(copy_len as usize, 0, true))
            } else {
                Some(ScanStep::Next(start_at as usize, 0, done))
            }
        }
    } else if short {
        let sn = short_name_bytes(e);
        if !valid_utf8(sn) {
            None
        } else if eq_ignore_case(name, sn) {
            Some(ScanStep::Found)
        } else {
            Some(ScanStep::Next(copy_len as usize, 0, done))
        }
    } else {
        Some(ScanStep::Next(copy_len as usize, 0, done))
    }
}

/// The outcome of scanning a directory for `name` from entry `k` on: `None` when the
/// scan would read past the device or meet an entry name that is not UTF-8,
/// `Some(None)` when it meets the end of the directory, and `Some(Some((e, i)))` when
/// it finds entry `e` at byte `i` of the directory. `step` entries are still to be
/// skipped.
pub open spec fn dir_scan(
    d: Seq<u8>,
    start: int,
    name: Seq<u8>,
    short: bool,
    k: int,
    copy_len: int,
    step: int,
    done: bool,
) -> Option<Option<(Seq<u8>, int)>>
    decreases d.len() - (start + 32 * k),
{
    if start < 0 || k < 0 || start + 32 * k + 32 > d.len() || (k % 16 == 0 && start + 32 * k
        + 512 > d.len()) {
        None
    } else if step != 0 {
        dir_scan(d, start, name, short, k + 1, copy_len, step - 1, done)
    } else {
        let e = dir_entry(d, start, k);
        match entry_step(e, name, short, copy_len, done) {
            None => None,
            Some(ScanStep::End) => Some(None),
            Some(ScanStep::Found) => Some(Some((e, 32 * k))),
            Some(ScanStep::Next(c, st, dn)) => dir_scan(
                d,
                start,
                name,
                short,
                k + 1,
                c as int,
                st as int,
                dn,
            ),
        }
    }
}

/// Scanning the directory of `dir` for `name` from its first entry.
pub open spec fn dir_lookup<T: BlockDevice>(dir: &Dir<T>, name: Seq<u8>) -> Option<
    Option<(Seq<u8>, int)>,
> {
    dir_scan(
        dir.partition.contents(),
        cluster_offset(dir.bpb, dir.dir_cluster as int),
        name,
        is_short_name(name),
        0,
        name.len() as int,
        0,
        false,
    )
}

/// What `exists` returns for `name` on a directory whose scan is `scan`.
pub open spec fn exists_result(name: Seq<u8>, scan: Option<Option<(Seq<u8>, int)>>) -> Result<
    (Seq<u8>, u32),
    DirError,
> {
    if exists|i: int| 0 <= i < name.len() && is_forbidden(#[trigger] name[i]) {
        Err(DirError::InvalidName)
    } else {
        match scan {
            Some(Some((e, i))) => Ok((e, i as u32)),
            _ => Err(DirError::NoMatch),
        }
    }
}

/// The cluster number that an entry records in its high and low words.
pub open spec fn entry_cluster(e: Seq<u8>) -> int {
    le16(e, 0x1A) + 65536 * le16(e, 0x14)
}

/// The bytes of `e` from `from` up to its first blank before `to`.
pub open spec fn trimmed(e: Seq<u8>, from: int, to: int) -> Seq<u8>
    decreases to - from,
{
    if from >= to || e[from] == 0x20 {
        seq![]
    } else {
        seq![e[from]] + trimmed(e, from + 1, to)
    }
}

/// `s` padded with zero bytes to `n` bytes.
pub open spec fn zero_padded(s: Seq<u8>, n: int) -> Seq<u8> {
    s + Seq::new((n - s.len()) as nat, |i: int| 0u8)
}

pub proof fn lemma_trimmed_len(e: Seq<u8>, from: int, to: int)
    requires
        from <= to,
    ensures
        trimmed(e, from, to).len() <= to - from,
    decreases to - from,
{
    if from < to && e[from] != 0x20 {
        lemma_trimmed_len(e, from + 1, to);
    }
}

pub proof fn lemma_range_bytes_len(e: Seq<u8>, i: int, end: int)
    requires
        i <= end + 1,
    ensures
        range_bytes(e, i, end).len() <= 3 * ((end - i + 1) / 2),
    decreases end + 1 - i,
{
    if i < end && !(e[i] == 0 && e[i + 1] == 0) {
        lemma_range_bytes_len(e, i + 2, end);
    }
}

pub proof fn lemma_short_from_len(e: Seq<u8>, i: int)
    requires
        0 <= i <= 11,
    ensures
        short_from(e, i).len() <= 11 - i + (if i <= 8 {
            1int
        } else {
            0int
        }),
    decreases 11 - i,
{
    if i < 11 {
        lemma_short_from_len(e, i + 1);
    }
}

} // verus!

verus! {

/// Number of characters of the first `len` bytes of `s`.
fn char_count_prefix(s: &[u8], len: usize) -> (r: usize)
    requires
        len <= s@.len(),
    ensures
        r == char_count(s@.subrange(0, len as int)),
        r <= len,
{
    let mut cnt: usize = 0;
    let mut j: usize = 0;
    while j < len
        invariant
            j <= len,
            len <= s@.len(),
            cnt <= j,
            cnt == char_count(s@.subrange(0, j as int)),
        decreases len - j,
    {
        assert(s@.subrange(0, j + 1).drop_last() =~= s@.subrange(0, j as int));
        let b = s[j];
        if !(0x80 <= b && b < 0xC0) {
            cnt = cnt + 1;
        }
        j = j + 1;
    }
    cnt
}

impl<'a, T: BlockDevice> Dir<'a, T> {
    fn short_or_long(&self, name: &str) -> (r: NameType)
        ensures
            (r == NameType::Short) == is_short_name(name.spec_bytes()),
    {
        let nb = name.as_bytes();
        let n = nb.len();
        let ghost s = nb@;
        let mut d: usize = 0;
        while d < n && nb[d] != 0x2E
            invariant
                d <= n,
                n == s.len(),
                s == nb@,
                find_byte(s, 0x2E, 0) == find_byte(s, 0x2E, d as int),
            decreases n - d,
        {
            d = d + 1;
        }
        let mut ascii = true;
        let mut blank = false;
        let mut i: usize = 0;
        while i < n
            invariant
                i <= n,
                n == s.len(),
                s == nb@,
                ascii == (forall|j: int| 0 <= j < i ==> s[j] < 0x80),
                blank == (exists|j: int| 0 <= j < i && s[j] == 0x20),
            decreases n - i,
        {
            if nb[i] >= 0x80 {
                ascii = false;
            }
            if nb[i] == 0x20 {
                blank = true;
            }
            i = i + 1;
        }
        let fits = if d < n {
            d <= 8 && n - d - 1 <= 3
        } else {
            n <= 8
        };
        if ascii && !blank && fits {
            NameType::Short
        } else {
            NameType::Long
        }
    }

    /// The number of bytes that the first `end` characters of the first `len` bytes of
    /// `name` take.
    fn get_slice_index(&self, name: &[u8], len: usize, end: usize) -> (r: usize)
        requires
            len <= name@.len(),
        ensures
            r == slice_index(name@.subrange(0, len as int), end as int),
            r <= len,
    {
        let mut cnt: usize = 0;
        let mut acc: usize = 0;
        let mut j: usize = 0;
        while j < len
            invariant
                j <= len,
                len <= name@.len(),
                cnt <= j,
                acc <= j,
                cnt == char_count(name@.subrange(0, j as int)),
                acc == slice_index(name@.subrange(0, j as int), end as int),
            decreases len - j,
        {
            assert(name@.subrange(0, j + 1).drop_last() =~= name@.subrange(0, j as int));
            let b = name[j];
            if !(0x80 <= b && b < 0xC0) {
                cnt = cnt + 1;
            }
            if cnt <= end {
                acc = acc + 1;
            }
            j = j + 1;
        }
        acc
    }
}

} // verus!

verus! {

/// Append the bytes of code unit `u` to the first `n` bytes of `out`.
fn put_unit(u: u16, out: &mut [u8; 39], n: usize) -> (r: usize)
    requires
        n + encode_unit(u as int).len() <= 39,
        forall|j: int| n <= j < 39 ==> old(out)@[j] == 0,
    ensures
        r == n + encode_unit(u as int).len(),
        final(out)@.subrange(0, r as int) == old(out)@.subrange(0, n as int) + encode_unit(
            u as int,
        ),
        forall|j: int| r <= j < 39 ==> final(out)@[j] == 0,
{
    let ghost before = out@.subrange(0, n as int);
    if u <= 0x007F {
        out[n] = u as u8;
        assert(out@.subrange(0, n + 1) =~= before + encode_unit(u as int));
        n + 1
    } else if u >= 0x0080 && u <= 0x07FF {
        out[n] = 0xC0u8;
        out[n + 1] = (0x80 + u % 64) as u8;
        assert(out@.subrange(0, n + 2) =~= before + encode_unit(u as int));
        n + 2
    } else {
        out[n] = (0xE0 + u / 4096) as u8;
        out[n + 1] = (0x80 + (u / 64) % 64) as u8;
        out[n + 2] = (0x80 + u % 64) as u8;
        assert(out@.subrange(0, n + 3) =~= before + encode_unit(u as int));
        n + 3
    }
}

/// Append the bytes of the code units of `buf` at `start, start + 2, ..` below `end`
/// to the first `n` bytes of `out`.
fn push_range(buf: &[u8], start: usize, end: usize, out: &mut [u8; 39], n: usize) -> (r: usize)
    requires
        buf@.len() >= 32,
        start <= end + 1,
        end <= 31,
        n + range_bytes(buf@, start as int, end as int).len() <= 39,
        forall|j: int| n <= j < 39 ==> old(out)@[j] == 0,
    ensures
        r == n + range_bytes(buf@, start as int, end as int).len(),
        final(out)@.subrange(0, r as int) == old(out)@.subrange(0, n as int) + range_bytes(
            buf@,
            start as int,
            end as int,
        ),
        forall|j: int| r <= j < 39 ==> final(out)@[j] == 0,
{
    let ghost e = buf@;
    let ghost o0 = out@;
    let mut m = n;
    let mut i = start;
    while i < end && !(buf[i] == 0 && buf[i + 1] == 0)
        invariant
            e == buf@,
            e.len() >= 32,
            start <= i <= end + 1,
            end <= 31,
            m + range_bytes(e, i as int, end as int).len() <= 39,
            out@.subrange(0, m as int) + range_bytes(e, i as int, end as int) == o0.subrange(
                0,
                n as int,
            ) + range_bytes(e, start as int, end as int),
            forall|j: int| m <= j < 39 ==> out@[j] == 0,
        decreases end + 1 - i,
    {
        let u: u16 = (buf[i] as u16) + (buf[i + 1] as u16) * 256;
        assert(range_bytes(e, i as int, end as int) == encode_unit(u as int) + range_bytes(
            e,
            i + 2,
            end as int,
        ));
        let ghost before = out@.subrange(0, m as int);
        m = put_unit(u, out, m);
        assert(before + range_bytes(e, i as int, end as int) =~= out@.subrange(0, m as int)
            + range_bytes(e, i + 2, end as int));
        i = i + 2;
    }
    assert(range_bytes(e, i as int, end as int) =~= Seq::<u8>::empty());
    assert(out@.subrange(0, m as int) =~= out@.subrange(0, m as int) + range_bytes(
        e,
        i as int,
        end as int,
    ));
    m
}

impl<'a, T: BlockDevice> Dir<'a, T> {
    /// The name that an 8.3 entry holds, with its length.
    fn get_short_name(&self, buf: &[u8]) -> (r: ([u8; 13], usize))
        requires
            buf@.len() >= 11,
        ensures
            r.0@ == zero_padded(short_name_bytes(buf@), 13),
            r.1 == short_name_bytes(buf@).len(),
            r.1 <= 12,
    {
        let ghost e = buf@;
        let mut file_name = [0u8; 13];
        let mut index: usize = 0;
        let mut i: usize = 0;
        proof {
            lemma_short_from_len(e, 0);
        }
        while i <= 0x0A
            invariant
                e == buf@,
                e.len() >= 11,
                i <= 11,
                index <= 13,
                file_name@.len() == 13,
                index + short_from(e, i as int).len() <= 12,
                file_name@.subrange(0, index as int) + short_from(e, i as int) == short_from(e, 0),
                forall|j: int| index <= j < 13 ==> file_name@[j] == 0,
            decreases 11 - i,
        {
            let ghost before = file_name@.subrange(0, index as int);
            proof {
                lemma_short_from_len(e, i + 1);
            }
            if buf[i] != 0x20 {
                if i == 0x08 {
                    file_name[index] = 0x2E;
                    index = index + 1;
                }
                file_name[index] = buf[i];
                index = index + 1;
                assert(file_name@.subrange(0, index as int) =~= before + (if i == 8 {
                    seq![0x2Eu8]
                } else {
                    seq![]
                }) + seq![e[i as int]]);
            }
            i = i + 1;
        }
        assert(file_name@.subrange(0, index as int) =~= short_from(e, 0));
        assert(file_name@ =~= zero_padded(short_name_bytes(e), 13));
        (file_name, index)
    }

    /// The part of a name that a long-name entry holds, with its length.
    fn get_long_name(&self, buf: &[u8]) -> (r: ([u8; 39], usize))
        requires
            buf@.len() >= 32,
        ensures
            r.0@ == zero_padded(long_name_bytes(buf@), 39),
            r.1 == long_name_bytes(buf@).len(),
    {
        let ghost e = buf@;
        let mut out = [0u8; 39];
        let mut n: usize = 0;
        proof {
            lemma_range_bytes_len(e, 0x01, 0x0A);
            lemma_range_bytes_len(e, 0x0E, 0x19);
            lemma_range_bytes_len(e, 0x1C, 0x1F);
        }
        assert(out@.subrange(0, 0) =~= Seq::<u8>::empty());
        if buf[0x01] != 0xFF {
            n = push_range(buf, 0x01, 0x0A, &mut out, n);
        }
        let ghost p1 = out@.subrange(0, n as int);
        if buf[0x0E] != 0xFF {
            n = push_range(buf, 0x0E, 0x19, &mut out, n);
        }
        let ghost p2 = out@.subrange(0, n as int);
        if buf[0x1C] != 0xFF {
            n = push_range(buf, 0x1C, 0x1F, &mut out, n);
        }
        assert(out@.subrange(0, n as int) =~= long_name_bytes(e));
        assert(out@ =~= zero_padded(long_name_bytes(e), 39));
        (out, n)
    }
}

} // verus!

verus! {

/// The cluster number that the entry in `buf` records.
fn read_entry_cluster(buf: &[u8]) -> (r: u32)
    requires
        buf@.len() >= 32,
    ensures
        r == entry_cluster(buf@),
{
    let lo = (buf[0x1A] as u32) + (buf[0x1B] as u32) * 256;
    let hi = (buf[0x14] as u32) + (buf[0x15] as u32) * 256;
    lo + hi * 65536
}

/// Copy the bytes of `buf` from `from` up to the first blank before `from + N` into the
/// front of a zeroed array.
fn copy_trimmed<const N: usize>(buf: &[u8], from: usize) -> (r: [u8; N])
    requires
        from + N <= buf@.len(),
    ensures
        r@ == zero_padded(trimmed(buf@, from as int, from + N), N as int),
{
    let ghost e = buf@;
    let bl = buf.len();
    let mut out = [0u8; N];
    let mut index: usize = 0;
    proof {
        lemma_trimmed_len(e, from as int, from + N);
    }
    while index < N && buf[from + index] != 0x20
        invariant
            e == buf@,
            from + N <= e.len(),
            bl == e.len(),
            index <= N,
            out@.len() == N,
            out@.subrange(0, index as int) + trimmed(e, from + index, from + N) == trimmed(
                e,
                from as int,
                from + N,
            ),
            forall|j: int| index <= j < N ==> out@[j] == 0,
        decreases N - index,
    {
        let ghost before = out@.subrange(0, index as int);
        out[index] = buf[from + index];
        assert(out@.subrange(0, index + 1) =~= before + seq![e[from + index]]);
        index = index + 1;
    }
    assert(trimmed(e, from + index, from + N) =~= Seq::<u8>::empty());
    assert(out@.subrange(0, index as int) =~= trimmed(e, from as int, from + N));
    assert(out@ =~= zero_padded(trimmed(e, from as int, from + N), N as int));
    out
}

impl<'a, T: BlockDevice> Dir<'a, T> {
    /// The directory that the entry in `buf` describes.
    fn get_dir(&self, buf: &[u8]) -> (r: Dir<'a, T>)
        requires
            buf@.len() >= 32,
        ensures
            r.partition == self.partition,
            r.bpb == self.bpb,
            r.dir_name@ == buf@.subrange(0, 11),
            r.dir_cluster == entry_cluster(buf@),
            r.length == le32(buf@, 0x1C),
    {
        let mut dir_name = [0u8; 11];
        let mut i: usize = 0;
        while i < 11
            invariant
                i <= 11,
                buf@.len() >= 32,
                forall|j: int| 0 <= j < i ==> dir_name@[j] == buf@[j],
            decreases 11 - i,
        {
            dir_name[i] = buf[i];
            i = i + 1;
        }
        assert(dir_name@ =~= buf@.subrange(0, 11));
        let length = (buf[0x1C] as u32) + (buf[0x1D] as u32) * 256 + ((buf[0x1E] as u32) + (
        buf[0x1F] as u32) * 256) * 65536;
        Dir {
            partition: self.partition,
            bpb: self.bpb,
            dir_name,
            dir_cluster: read_entry_cluster(buf),
            length,
        }
    }

    /// The file that the entry in `buf`, at byte `offset` of this directory, describes.
    fn get_file(&self, buf: &[u8], offset: u32) -> (r: File<'a, T>)
        requires
            buf@.len() >= 32,
        ensures
            r.partition == self.partition,
            r.bpb == self.bpb,
            r.dir_cluster == self.dir_cluster,
            r.offset == offset,
            r.file_name@ == zero_padded(trimmed(buf@, 0, 8), 8),
            r.extension_name@ == zero_padded(trimmed(buf@, 8, 11), 3),
            r.file_cluster == entry_cluster(buf@),
            r.length == le32(buf@, 0x1C),
    {
        let file_name: [u8; 8] = copy_trimmed(buf, 0);
        let extension_name: [u8; 3] = copy_trimmed(buf, 8);
        let length = (buf[0x1C] as u32) + (buf[0x1D] as u32) * 256 + ((buf[0x1E] as u32) + (
        buf[0x1F] as u32) * 256) * 65536;
        File {
            partition: self.partition,
            bpb: self.bpb,
            dir_cluster: self.dir_cluster,
            offset,
            file_name,
            extension_name,
            file_cluster: read_entry_cluster(buf),
            length: length as usize,
        }
    }
}

} // verus!

verus! {

/// The entry before entry `m + 1` (entry `m`) ends a long name that the looked-up name
/// begins with: a long-name entry (attribute 0x0F) with ordinal 1 whose text is a
/// prefix of `name`.
pub open spec fn ends_long_name(d: Seq<u8>, start: int, m: int, name: Seq<u8>) -> bool {
    let p = dir_entry(d, start, m);
    &&& p[0x0B] == 0x0F
    &&& p[0] % 32 == 1
    &&& long_name_bytes(p).len() <= name.len()
    &&& long_name_bytes(p) == name.subrange(0, long_name_bytes(p).len() as int)
}

proof fn lemma_slice_index_le(s: Seq<u8>, end: int)
    ensures
        0 <= slice_index(s, end) <= s.len(),
    decreases s.len(),
{
    if s.len() > 0 {
        lemma_slice_index_le(s.drop_last(), end);
    }
}

/// An entry decides that it is the one looked for only right after a long name was
/// matched, or, for an 8.3 name, when it is an 8.3 entry with that name.
proof fn lemma_step_found(e: Seq<u8>, name: Seq<u8>, short: bool, copy_len: int, done: bool)
    requires
        entry_step(e, name, short, copy_len, done) == Some(ScanStep::Found),
    ensures
        done || (short && e[0x0B] != 0x0F && eq_ignore_case(name, short_name_bytes(e))),
{
    reveal(entry_step);
}

/// When an entry lets the scan go on, the name still to match stays within the name; a
/// completed long-name match comes only from a long-name entry with ordinal 1 whose text
/// begins the name, and is never made while looking for an 8.3 name.
proof fn lemma_step_next(
    e: Seq<u8>,
    name: Seq<u8>,
    short: bool,
    copy_len: int,
    done: bool,
    c: usize,
    st: usize,
    dn: bool,
)
    requires
        0 <= copy_len <= name.len(),
        name.len() <= usize::MAX,
        short ==> !done,
        entry_step(e, name, short, copy_len, done) == Some(ScanStep::Next(c, st, dn)),
    ensures
        0 <= c <= name.len(),
        !done,
        short ==> !dn,
        dn ==> st == 0 && e[0x0B] == 0x0F && e[0] % 32 == 1 && long_name_bytes(e).len()
            <= name.len() && long_name_bytes(e) == name.subrange(
            0,
            long_name_bytes(e).len() as int,
        ),
{
    reveal(entry_step);
    if e[0] != 0 && e[0] != 0xE5 && e[0x0B] == 0x0F && !short {
        let copy = name.subrange(0, copy_len);
        let len = char_count(copy);
        if len > 13 {
            lemma_slice_index_le(
                copy,
                13 * (if len % 13 == 0 {
                    len / 13 - 1
                } else {
                    len / 13
                }),
            );
        }
        if dn {
            let part = long_name_bytes(e);
            assert(part == copy);
            assert(part =~= name.subrange(0, part.len() as int));
        }
    }
}

proof fn lemma_scan_found(
    d: Seq<u8>,
    start: int,
    name: Seq<u8>,
    short: bool,
    k: int,
    copy_len: int,
    step: int,
    done: bool,
)
    requires
        0 <= k,
        0 <= step,
        0 <= copy_len <= name.len(),
        name.len() <= usize::MAX,
        short ==> !done,
        done ==> step == 0 && k >= 1 && ends_long_name(d, start, k - 1, name),
        dir_scan(d, start, name, short, k, copy_len, step, done) matches Some(Some(_)),
    ensures
        ({
            let (e, i) = dir_scan(d, start, name, short, k, copy_len, step, done)->Some_0->Some_0;
            &&& i >= 32 * k
            &&& i % 32 == 0
            &&& e == dir_entry(d, start, i / 32)
            &&& short ==> e[0x0B] != 0x0F && eq_ignore_case(name, short_name_bytes(e))
            &&& !short ==> i >= 32 && ends_long_name(d, start, i / 32 - 1, name)
        }),
    decreases d.len() - (start + 32 * k),
{
    if start < 0 || k < 0 || start + 32 * k + 32 > d.len() || (k % 16 == 0 && start + 32 * k
        + 512 > d.len()) {
    } else if step != 0 {
        lemma_scan_found(d, start, name, short, k + 1, copy_len, step - 1, done);
    } else {
        let e = dir_entry(d, start, k);
        match entry_step(e, name, short, copy_len, done) {
            Some(ScanStep::Found) => {
                lemma_step_found(e, name, short, copy_len, done);
                assert((32 * k) / 32 == k);
            },
            Some(ScanStep::Next(c, st, dn)) => {
                lemma_step_next(e, name, short, copy_len, done, c, st, dn);
                lemma_scan_found(d, start, name, short, k + 1, c as int, st as int, dn);
            },
            _ => {},
        }
    }
}

/// Law: what a successful lookup returns is an 8.3 entry of the directory. The entry is
/// the 32 bytes at the returned offset, a multiple of 32, of the directory's first
/// cluster. For an 8.3 name it is not a long-name entry (attribute 0x0F) and its name
/// equals the looked-up name but for case. For a long name it is the entry right after
/// a long-name entry with ordinal 1 whose text begins the looked-up name: the entry that
/// follows the long-name entries, never one of them that merely matched.
pub proof fn lemma_lookup_finds_entry<T: BlockDevice>(dir: &Dir<T>, name: Seq<u8>)
    requires
        name.len() <= usize::MAX,
        dir_lookup(dir, name) matches Some(Some(_)),
    ensures
        ({
            let d = dir.partition.contents();
            let start = cluster_offset(dir.bpb, dir.dir_cluster as int);
            let (e, i) = dir_lookup(dir, name)->Some_0->Some_0;
            &&& 0 <= i
            &&& i % 32 == 0
            &&& e == d.subrange(start + i, start + i + 32)
            &&& is_short_name(name) ==> e[0x0B] != 0x0F && eq_ignore_case(name, short_name_bytes(e))
            &&& !is_short_name(name) ==> {
                let p = d.subrange(start + i - 32, start + i);
                &&& i >= 32
                &&& p[0x0B] == 0x0F
                &&& p[0] % 32 == 1
                &&& long_name_bytes(p).len() <= name.len()
                &&& long_name_bytes(p) == name.subrange(0, long_name_bytes(p).len() as int)
            }
        }),
{
    let d = dir.partition.contents();
    let start = cluster_offset(dir.bpb, dir.dir_cluster as int);
    lemma_scan_found(d, start, name, is_short_name(name), 0, name.len() as int, 0, false);
    let i = dir_lookup(dir, name)->Some_0->Some_0.1;
    assert(32 * (i / 32) == i);
    assert(32 * (i / 32 - 1) == i - 32);
}

/// A name holds one of the forbidden characters.
pub open spec fn has_forbidden(s: Seq<u8>) -> bool {
    exists|i: int| 0 <= i < s.len() && is_forbidden(#[trigger] s[i])
}

/// The lookup of `name` in `dir` can run without failing. A name with a forbidden
/// character is refused before anything is read; for any other name the sectors are
/// 512 bytes, the directory start can be computed, and the scan neither reads past the
/// device nor meets a name that is not UTF-8.
pub open spec fn lookup_defined<T: BlockDevice>(dir: &Dir<T>, name: Seq<u8>) -> bool {
    !has_forbidden(name) ==> {
        &&& dir.bpb.byte_per_sector == BUFFER_SIZE
        &&& offset_ok(dir.bpb, dir.dir_cluster as int)
        &&& dir.partition.contents().len() <= usize::MAX
        &&& dir_lookup(dir, name) is Some
    }
}

/// `a[from..to]` equals the first `blen` bytes of `b`.
fn bytes_eq(a: &[u8], from: usize, to: usize, b: &[u8; 39], blen: usize) -> (r: bool)
    requires
        from <= to <= a@.len(),
        blen <= 39,
    ensures
        r == (a@.subrange(from as int, to as int) == b@.subrange(0, blen as int)),
{
    if to - from != blen {
        assert(a@.subrange(from as int, to as int).len() != b@.subrange(0, blen as int).len());
        return false;
    }
    let mut i: usize = 0;
    while i < blen
        invariant
            i <= blen,
            blen <= 39,
            from + blen == to,
            to <= a@.len(),
            forall|j: int| 0 <= j < i ==> a@[from + j] == b@[j],
        decreases blen - i,
    {
        if a[from + i] != b[i] {
            assert(a@.subrange(from as int, to as int)[i as int] != b@.subrange(0, blen as int)[i as int]);
            return false;
        }
        i = i + 1;
    }
    assert(a@.subrange(from as int, to as int) =~= b@.subrange(0, blen as int));
    true
}

/// `a` equals the first `blen` bytes of `b` but for the case of ASCII letters.
fn eq_ignore_ascii_case(a: &[u8], b: &[u8; 13], blen: usize) -> (r: bool)
    requires
        blen <= 13,
    ensures
        r == eq_ignore_case(a@, b@.subrange(0, blen as int)),
{
    if a.len() != blen {
        return false;
    }
    let mut i: usize = 0;
    while i < blen
        invariant
            i <= blen,
            blen <= 13,
            a@.len() == blen,
            forall|j: int| 0 <= j < i ==> lower(a@[j]) == lower(b@[j]),
        decreases blen - i,
    {
        let x = a[i];
        let y = b[i];
        let lx = if 0x41 <= x && x <= 0x5A {
            x + 32
        } else {
            x
        };
        let ly = if 0x41 <= y && y <= 0x5A {
            y + 32
        } else {
            y
        };
        if lx != ly {
            assert(lower(a@[i as int]) != lower(b@.subrange(0, blen as int)[i as int]));
            return false;
        }
        i = i + 1;
    }
    true
}

/// Copy the 32-byte entry at `off` of `buf`.
fn copy_entry(buf: &[u8; 512], off: usize) -> (r: [u8; 32])
    requires
        off + 32 <= 512,
    ensures
        r@ == buf@.subrange(off as int, off + 32),
{
    let mut temp = [0u8; 32];
    let mut i: usize = 0;
    while i < 32
        invariant
            i <= 32,
            off + 32 <= 512,
            forall|j: int| 0 <= j < i ==> temp@[j] == buf@[off + j],
        decreases 32 - i,
    {
        temp[i] = buf[off + i];
        i = i + 1;
    }
    assert(temp@ =~= buf@.subrange(off as int, off + 32));
    temp
}

impl<'a, T: BlockDevice> Dir<'a, T> {
    /// Look `name` up in this directory; return its 32-byte entry and the entry's byte
    /// offset in the directory.
    pub fn find_entry(&self, name: &str) -> (r: Result<([u8; 32], u32), DirError>)
        requires
            lookup_defined(self, name.spec_bytes()),
        ensures
            r is Ok ==> exists_result(name.spec_bytes(), dir_lookup(self, name.spec_bytes()))
                == Ok::<(Seq<u8>, u32), DirError>((r->Ok_0.0@, r->Ok_0.1)),
            r is Err ==> exists_result(name.spec_bytes(), dir_lookup(self, name.spec_bytes()))
                == Err::<(Seq<u8>, u32), DirError>(r->Err_0),
    {
        let nb = name.as_bytes();
        let ghost s = nb@;
        assert(s == name.spec_bytes());
        let n = nb.len();
        let mut j: usize = 0;
        while j < n
            invariant
                j <= n,
                n == s.len(),
                s == nb@,
                s == name.spec_bytes(),
                forall|t: int| 0 <= t < j ==> !is_forbidden(s[t]),
            decreases n - j,
        {
            let c = nb[j];
            if c == 0x5C || c == 0x2F || c == 0x3A || c == 0x2A || c == 0x3F || c == 0x22 || c
                == 0x3C || c == 0x3E || c == 0x7C {
                assert(is_forbidden(s[j as int]));
                assert(has_forbidden(s));
                assert(exists_result(s, dir_lookup(self, s)) == Err::<(Seq<u8>, u32), DirError>(
                    DirError::InvalidName,
                ));
                return Err(DirError::InvalidName);
            }
            j = j + 1;
        }
        assert(!has_forbidden(s));
        let short = match self.short_or_long(name) {
            NameType::Short => true,
            NameType::Long => false,
        };
        let start = self.bpb.offset(self.dir_cluster);
        let ghost d = self.partition.contents();
        let ghost result = dir_lookup(self, s);
        let mut buf = [0u8; 512];
        let mut k: usize = 0;
        let mut copy_len: usize = n;
        let mut step: usize = 0;
        let mut done = false;
        loop
            invariant
                s == nb@,
                s == name.spec_bytes(),
                n == s.len(),
                d == self.partition.contents(),
                d.len() <= usize::MAX,
                start == cluster_offset(self.bpb, self.dir_cluster as int),
                short == is_short_name(s),
                result == dir_lookup(self, s),
                result is Some,
                !has_forbidden(s),
                copy_len <= n,
                step < 32,
                dir_scan(d, start as int, s, short, k as int, copy_len as int, step as int, done)
                    == result,
                k % 16 != 0 ==> forall|t: int|
                    0 <= t < 512 ==> #[trigger] buf@[t] == d[start + 512 * (k / 16) + t],
            decreases d.len() - (start + 32 * k),
        {
            assert(start + 32 * k + 32 <= d.len());
            if k % 16 == 0 {
                assert(start + 32 * k + 512 <= d.len());
                let rr = self.partition.read(&mut buf, start + 512 * (k / 16));
                if rr.is_err() {
                    return Err(DirError::NoMatch);
                }
                assert(forall|t: int|
                    0 <= t < 512 ==> #[trigger] buf@[t] == d[start + 512 * (k / 16) + t]);
            }
            assert(start + 512 * (k / 16) + 32 * (k % 16) == start + 32 * k);
            if step != 0 {
                step = step - 1;
                k = k + 1;
                continue;
            }
            let off = 32 * (k % 16);
            let entry = copy_entry(&buf, off);
            assert(entry@ =~= dir_entry(d, start as int, k as int));
            match self.entry_decision(&entry, nb, short, copy_len, done) {
                ScanStep::End => {
                    return Err(DirError::NoMatch);
                },
                ScanStep::Found => {
                    return Ok((entry, (32 * k) as u32));
                },
                ScanStep::Next(c, st, dn) => {
                    copy_len = c;
                    step = st;
                    done = dn;
                    k = k + 1;
                },
            }
        }
    }

    /// What the entry `entry` decides for the lookup of `nb` in a given state.
    fn entry_decision(
        &self,
        entry: &[u8; 32],
        nb: &[u8],
        short: bool,
        copy_len: usize,
        done: bool,
    ) -> (r: ScanStep)
        requires
            copy_len <= nb@.len(),
            short == is_short_name(nb@),
            entry_step(entry@, nb@, short, copy_len as int, done) is Some,
        ensures
            entry_step(entry@, nb@, short, copy_len as int, done) == Some(r),
            r matches ScanStep::Next(c, st, _) ==> c <= nb@.len() && st < 32,
    {
        reveal(entry_step);
        let n = nb.len();
        if entry[0] == 0x00 {
            return ScanStep::End;
        }
        if done {
            return ScanStep::Found;
        }
        if entry[0] == 0xE5 {
            return ScanStep::Next(copy_len, 0, done);
        }
        if entry[0x0B] == 0x0F {
            let count = (entry[0] % 32) as usize;
            if short {
                return ScanStep::Next(copy_len, count, done);
            }
            let len = char_count_prefix(nb, copy_len);
            let info = self.get_long_name(entry);
            let start_at = if len <= 13 {
                0
            } else {
                let multi = if len % 13 == 0 {
                    len / 13 - 1
                } else {
                    len / 13
                };
                self.get_slice_index(nb, copy_len, 13 * multi)
            };
            let ghost copy = nb@.subrange(0, copy_len as int);
            assert(start_at == part_start(copy));
            assert(copy.subrange(start_at as int, copy_len as int) =~= nb@.subrange(
                start_at as int,
                copy_len as int,
            ));
            assert(info.0@.subrange(0, info.1 as int) =~= long_name_bytes(entry@));
            if !bytes_eq(nb, start_at, copy_len, &info.0, info.1) {
                return ScanStep::Next(n, count, done);
            } else if start_at == 0 && count == 1 {
                return ScanStep::Next(copy_len, 0, true);
            } else {
                return ScanStep::Next(start_at, 0, done);
            }
        }
        if short {
            let info = self.get_short_name(entry);
            assert(info.0@.subrange(0, info.1 as int) =~= short_name_bytes(entry@));
            if eq_ignore_ascii_case(nb, &info.0, info.1) {
                return ScanStep::Found;
            }
        }
        ScanStep::Next(copy_len, 0, done)
    }

    /// The subdirectory called `dir`.
    pub fn cd(&self, dir: &str) -> (r: Result<Dir<'a, T>, DirError>)
        requires
            lookup_defined(self, dir.spec_bytes()),
        ensures
            match exists_result(dir.spec_bytes(), dir_lookup(self, dir.spec_bytes())) {
                Ok((e, _)) => r matches Ok(d) && d.partition == self.partition && d.bpb
                    == self.bpb && d.dir_name@ == e.subrange(0, 11) && d.dir_cluster
                    == entry_cluster(e) && d.length == le32(e, 0x1C),
                Err(_) => r == Err::<Dir<'a, T>, DirError>(DirError::NoMatchDir),
            },
    {
        match self.find_entry(dir) {
            Ok(buf) => Ok(self.get_dir(&buf.0)),
            Err(_) => Err(DirError::NoMatchDir),
        }
    }

    /// The file called `file`.
    pub fn open_file(&self, file: &str) -> (r: Result<File<'a, T>, DirError>)
        requires
            lookup_defined(self, file.spec_bytes()),
        ensures
            match exists_result(file.spec_bytes(), dir_lookup(self, file.spec_bytes())) {
                Ok((e, i)) => r matches Ok(f) && f.partition == self.partition && f.bpb
                    == self.bpb && f.dir_cluster == self.dir_cluster && f.offset == i
                    && f.file_name@ == zero_padded(trimmed(e, 0, 8), 8) && f.extension_name@
                    == zero_padded(trimmed(e, 8, 11), 3) && f.file_cluster == entry_cluster(e)
                    && f.length == le32(e, 0x1C),
                Err(_) => r == Err::<File<'a, T>, DirError>(DirError::NoMatchFile),
            },
    {
        match self.find_entry(file) {
            Ok(buf) => Ok(self.get_file(&buf.0, buf.1)),
            Err(_) => Err(DirError::NoMatchFile),
        }
    }
}

} // verus!
