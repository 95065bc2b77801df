//! A window onto a range of physical memory.
//!
//! The region owns a copy of the bytes it covers, so every read and write
//! is checked against its length and its contents are described by its view.
use vstd::prelude::*;

verus! {

/// Little-endian value of the two bytes of `s` at `i`.
pub open spec fn le16(s: Seq<u8>, i: int) -> int {
    s[i] as int + 256 * s[i + 1] as int
}

/// Little-endian value of the four bytes of `s` at `i`.
pub open spec fn le32(s: Seq<u8>, i: int) -> int {
    le16(s, i) + 65536 * le16(s, i + 2)
}

/// Little-endian value of the eight bytes of `s` at `i`.
pub open spec fn le64(s: Seq<u8>, i: int) -> int {
    le32(s, i) + 0x1_0000_0000 * le32(s, i + 4)
}

/// `s2` equals `s1` except possibly in the `n` bytes starting at `off`.
pub open spec fn same_outside(s1: Seq<u8>, s2: Seq<u8>, off: int, n: int) -> bool {
    &&& s1.len() == s2.len()
    &&& forall|j: int| 0 <= j < s1.len() && !(off <= j < off + n) ==> #[trigger] s2[j] == s1[j]
}

/// `s` with the little-endian bytes of `v` written at `i` (two bytes).
pub open spec fn put_le16(s: Seq<u8>, i: int, v: int) -> Seq<u8> {
    s.update(i, (v % 256) as u8).update(i + 1, ((v / 256) % 256) as u8)
}

/// `s` with the little-endian bytes of `v` written at `i` (four bytes).
pub open spec fn put_le32(s: Seq<u8>, i: int, v: int) -> Seq<u8> {
    put_le16(put_le16(s, i, v % 65536), i + 2, (v / 65536) % 65536)
}

/// `s` with the little-endian bytes of `v` written at `i` (eight bytes).
pub open spec fn put_le64(s: Seq<u8>, i: int, v: int) -> Seq<u8> {
    put_le32(put_le32(s, i, v % 0x1_0000_0000), i + 4, (v / 0x1_0000_0000) % 0x1_0000_0000)
}

pub proof fn lemma_le16_bound(s: Seq<u8>, i: int)
    requires
        0 <= i,
        i + 2 <= s.len(),
    ensures
        0 <= le16(s, i) <= 0xffff,
{
}

pub proof fn lemma_le32_bound(s: Seq<u8>, i: int)
    requires
        0 <= i,
        i + 4 <= s.len(),
    ensures
        0 <= le32(s, i) <= 0xffff_ffff,
{
    lemma_le16_bound(s, i);
    lemma_le16_bound(s, i + 2);
}

pub proof fn lemma_le64_bound(s: Seq<u8>, i: int)
    requires
        0 <= i,
        i + 8 <= s.len(),
    ensures
        0 <= le64(s, i) <= 0xffff_ffff_ffff_ffff,
{
    lemma_le32_bound(s, i);
    lemma_le32_bound(s, i + 4);
}

/// Reading a little-endian value depends only on the bytes that it covers.
pub proof fn lemma_le_frame(s1: Seq<u8>, s2: Seq<u8>, i: int, n: int)
    requires
        0 <= i,
        i + n <= s1.len(),
        i + n <= s2.len(),
        forall|j: int| i <= j < i + n ==> s1[j] == s2[j],
    ensures
        n >= 2 ==> le16(s1, i) == le16(s2, i),
        n >= 4 ==> le32(s1, i) == le32(s2, i),
        n >= 8 ==> le64(s1, i) == le64(s2, i),
{
    if n >= 2 {
        assert(s1[i] == s2[i] && s1[i + 1] == s2[i + 1]);
    }
    if n >= 4 {
        assert(s1[i + 2] == s2[i + 2] && s1[i + 3] == s2[i + 3]);
    }
    if n >= 8 {
        assert(s1[i + 4] == s2[i + 4] && s1[i + 5] == s2[i + 5]);
        assert(s1[i + 6] == s2[i + 6] && s1[i + 7] == s2[i + 7]);
    }
}

proof fn lemma_put_le16_get(s: Seq<u8>, i: int, v: int)
    requires
        0 <= i,
        i + 2 <= s.len(),
        0 <= v < 0x1_0000,
    ensures
        put_le16(s, i, v).len() == s.len(),
        le16(put_le16(s, i, v), i) == v,
        forall|k: int| 0 <= k < s.len() && !(i <= k < i + 2) ==> #[trigger] put_le16(s, i, v)[k] == s[k],
{
    assert(v == 256 * (v / 256) + v % 256 && 0 <= v / 256 < 256) by (nonlinear_arith)
        requires
            0 <= v < 0x1_0000,
    ;
}

proof fn lemma_put_le32_get(s: Seq<u8>, i: int, v: int)
    requires
        0 <= i,
        i + 4 <= s.len(),
        0 <= v < 0x1_0000_0000,
    ensures
        put_le32(s, i, v).len() == s.len(),
        le32(put_le32(s, i, v), i) == v,
        forall|k: int| 0 <= k < s.len() && !(i <= k < i + 4) ==> #[trigger] put_le32(s, i, v)[k] == s[k],
{
    let lo = v % 65536;
    let hi = (v / 65536) % 65536;
    assert(v == 65536 * hi + lo && 0 <= lo < 65536 && 0 <= hi < 65536) by (nonlinear_arith)
        requires
            0 <= v < 0x1_0000_0000,
            lo == v % 65536,
            hi == (v / 65536) % 65536,
    ;
    let s1 = put_le16(s, i, lo);
    lemma_put_le16_get(s, i, lo);
    lemma_put_le16_get(s1, i + 2, hi);
    lemma_le_frame(s1, put_le16(s1, i + 2, hi), i, 2);
}

proof fn lemma_put_le64_get(s: Seq<u8>, i: int, v: int)
    requires
        0 <= i,
        i + 8 <= s.len(),
        0 <= v < 0x1_0000_0000_0000_0000,
    ensures
        put_le64(s, i, v).len() == s.len(),
        le64(put_le64(s, i, v), i) == v,
        forall|k: int| 0 <= k < s.len() && !(i <= k < i + 8) ==> #[trigger] put_le64(s, i, v)[k] == s[k],
{
    let lo = v % 0x1_0000_0000;
    let hi = (v / 0x1_0000_0000) % 0x1_0000_0000;
    assert(v == 0x1_0000_0000 * hi + lo && 0 <= lo < 0x1_0000_0000 && 0 <= hi < 0x1_0000_0000)
        by (nonlinear_arith)
        requires
            0 <= v < 0x1_0000_0000_0000_0000,
            lo == v % 0x1_0000_0000,
            hi == (v / 0x1_0000_0000) % 0x1_0000_0000,
    ;
    let s1 = put_le32(s, i, lo);
    lemma_put_le32_get(s, i, lo);
    lemma_put_le32_get(s1, i + 4, hi);
    lemma_le_frame(s1, put_le32(s1, i + 4, hi), i, 4);
}

/// Two 4-byte writes of the halves of `value`, at `off` and `off + 4`, make one 8-byte
/// write of `value` at `off`.
proof fn lemma_two_halves(s0: Seq<u8>, s1: Seq<u8>, s2: Seq<u8>, off: int, value: int, lo: int, hi: int)
    requires
        0 <= off,
        off + 8 <= s0.len(),
        0 <= value < 0x1_0000_0000_0000_0000,
        lo == value % 0x1_0000_0000,
        hi == value / 0x1_0000_0000,
        same_outside(s0, s1, off, 4),
        le32(s1, off) == lo,
        s1 == put_le32(s0, off, lo),
        same_outside(s1, s2, off + 4, 4),
        le32(s2, off + 4) == hi,
        s2 == put_le32(s1, off + 4, hi),
    ensures
        same_outside(s0, s2, off, 8),
        le64(s2, off) == value,
        s2 == put_le64(s0, off, value),
{
    assert(value == lo + 0x1_0000_0000 * hi && 0 <= hi < 0x1_0000_0000) by (nonlinear_arith)
        requires
            0 <= value < 0x1_0000_0000_0000_0000,
            lo == value % 0x1_0000_0000,
            hi == value / 0x1_0000_0000,
    ;
    assert(hi % 0x1_0000_0000 == hi);
    lemma_le_frame(s1, s2, off, 4);
}


/// Law: a read gives back what a write stored. After a write of an `n`-byte value at
/// `off` (n = 2, 4 or 8), a read of `n` bytes at `off` gives the value, and a read of
/// bytes that the write did not cover gives what it gave before.
pub proof fn lemma_read_after_write(s: Seq<u8>, off: int, v: int, j: int, n: int)
    requires
        n == 2 || n == 4 || n == 8,
        0 <= off,
        off + n <= s.len(),
        0 <= v,
        n == 2 ==> v < 0x1_0000,
        n == 4 ==> v < 0x1_0000_0000,
        n == 8 ==> v < 0x1_0000_0000_0000_0000,
        0 <= j,
        j + n <= s.len(),
    ensures
        n == 2 ==> le16(put_le16(s, off, v), off) == v,
        n == 4 ==> le32(put_le32(s, off, v), off) == v,
        n == 8 ==> le64(put_le64(s, off, v), off) == v,
        j + n <= off || off + n <= j ==> {
            &&& n == 2 ==> le16(put_le16(s, off, v), j) == le16(s, j)
            &&& n == 4 ==> le32(put_le32(s, off, v), j) == le32(s, j)
            &&& n == 8 ==> le64(put_le64(s, off, v), j) == le64(s, j)
        },
{
    if n == 2 {
        lemma_put_le16_get(s, off, v);
        if j + n <= off || off + n <= j {
            lemma_le_frame(s, put_le16(s, off, v), j, 2);
        }
    } else if n == 4 {
        lemma_put_le32_get(s, off, v);
        if j + n <= off || off + n <= j {
            lemma_le_frame(s, put_le32(s, off, v), j, 4);
        }
    } else {
        lemma_put_le64_get(s, off, v);
        if j + n <= off || off + n <= j {
            lemma_le_frame(s, put_le64(s, off, v), j, 8);
        }
    }
}

/// A range of memory: where it starts and what it holds.
pub struct MemoryRegion {
    base: u64,
    bytes: Vec<u8>,
}

impl View for MemoryRegion {
    type V = Seq<u8>;

    closed spec fn view(&self) -> Seq<u8> {
        self.bytes@
    }
}

impl MemoryRegion {
    /// The address of the region's first byte.
    pub closed spec fn base(&self) -> u64 {
        self.base
    }

    /// A cleared region of `length` bytes starting at `base`.
    pub fn new(base: u64, length: u64) -> (r: Self)
        requires
            length <= usize::MAX,
        ensures
            r.base() == base,
            r@ == Seq::new(length as nat, |i: int| 0u8),
    {
        let mut bytes: Vec<u8> = Vec::new();
        let n = length as usize;
        let mut i: usize = 0;
        while i < n
            invariant
                i <= n,
                n == length,
                bytes@ == Seq::new(i as nat, |k: int| 0u8),
            decreases n - i,
        {
            bytes.push(0u8);
            i = i + 1;
        }
        MemoryRegion { base, bytes }
    }

    /// The number of bytes in the region.
    pub fn len(&self) -> (r: u64)
        requires
            self@.len() <= u64::MAX,
        ensures
            r == self@.len(),
    {
        self.bytes.len() as u64
    }

    /// A region holding a copy of `data`; its address is not modelled and is zero.
    pub fn from_slice(data: &[u8]) -> (r: Self)
        ensures
            r.base() == 0,
            r@ == data@,
    {
        let mut bytes: Vec<u8> = Vec::new();
        let mut i: usize = 0;
        while i < data.len()
            invariant
                i <= data@.len(),
                bytes@ == data@.subrange(0, i as int),
            decreases data@.len() - i,
        {
            bytes.push(data[i]);
            i = i + 1;
        }
        MemoryRegion { base: 0, bytes }
    }

    /// A region starting at `base` that holds `bytes`.
    pub fn from_vec(base: u64, bytes: Vec<u8>) -> (r: Self)
        ensures
            r.base() == base,
            r@ == bytes@,
    {
        MemoryRegion { base, bytes }
    }

    /// The number of bytes in the region, as an index.
    pub fn len_usize(&self) -> (r: usize)
        ensures
            r == self@.len(),
    {
        self.bytes.len()
    }

    /// The byte at `i`.
    pub fn byte_at(&self, i: usize) -> (r: u8)
        requires
            i < self@.len(),
        ensures
            r == self@[i as int],
    {
        self.bytes[i]
    }

    pub fn read_u8(&self, offset: u64) -> (r: u8)
        requires
            offset < self@.len(),
        ensures
            r == self@[offset as int],
    {
        let _n = self.bytes.len();
        self.bytes[offset as usize]
    }

    pub fn read_u16(&self, offset: u64) -> (r: u16)
        requires
            offset + 2 <= self@.len(),
        ensures
            r == le16(self@, offset as int),
    {
        let _n = self.bytes.len();
        let o = offset as usize;
        let lo = self.bytes[o] as u16;
        let hi = self.bytes[o + 1] as u16;
        lo + hi * 256
    }

    pub fn read_u32(&self, offset: u64) -> (r: u32)
        requires
            offset + 4 <= self@.len(),
        ensures
            r == le32(self@, offset as int),
    {
        let _n = self.bytes.len();
        proof {
            lemma_le16_bound(self@, offset as int);
            lemma_le16_bound(self@, offset + 2);
        }
        let lo = self.read_u16(offset) as u32;
        let hi = self.read_u16(offset + 2) as u32;
        lo + hi * 65536
    }

    pub fn read_u64(&self, offset: u64) -> (r: u64)
        requires
            offset + 8 <= self@.len(),
        ensures
            r == le64(self@, offset as int),
    {
        let _n = self.bytes.len();
        proof {
            lemma_le32_bound(self@, offset as int);
            lemma_le32_bound(self@, offset + 4);
        }
        let lo = self.read_u32(offset) as u64;
        let hi = self.read_u32(offset + 4) as u64;
        lo + hi * 0x1_0000_0000
    }

    pub fn write_u8(&mut self, offset: u64, value: u8)
        requires
            offset < old(self)@.len(),
        ensures
            final(self).base() == old(self).base(),
            final(self)@ == old(self)@.update(offset as int, value),
    {
        let _n = self.bytes.len();
        self.bytes.set(offset as usize, value);
    }

    pub fn write_u16(&mut self, offset: u64, value: u16)
        requires
            offset + 2 <= old(self)@.len(),
        ensures
            final(self).base() == old(self).base(),
            same_outside(old(self)@, final(self)@, offset as int, 2),
            le16(final(self)@, offset as int) == value,
            final(self)@ == put_le16(old(self)@, offset as int, value as int),
    {
        let _n = self.bytes.len();
        let o = offset as usize;
        self.bytes.set(o, (value % 256) as u8);
        self.bytes.set(o + 1, (value / 256) as u8);
    }

    pub fn write_u32(&mut self, offset: u64, value: u32)
        requires
            offset + 4 <= old(self)@.len(),
        ensures
            final(self).base() == old(self).base(),
            same_outside(old(self)@, final(self)@, offset as int, 4),
            le32(final(self)@, offset as int) == value,
            final(self)@ == put_le32(old(self)@, offset as int, value as int),
    {
        let _n = self.bytes.len();
        self.write_u16(offset, (value % 65536) as u16);
        let ghost s1 = self@;
        self.write_u16(offset + 2, (value / 65536) as u16);
        proof {
            lemma_le_frame(s1, self@, offset as int, 2);
        }
    }

    pub fn write_u64(&mut self, offset: u64, value: u64)
        requires
            offset + 8 <= old(self)@.len(),
        ensures
            final(self).base() == old(self).base(),
            same_outside(old(self)@, final(self)@, offset as int, 8),
            le64(final(self)@, offset as int) == value,
            final(self)@ == put_le64(old(self)@, offset as int, value as int),
    {
        let _n = self.bytes.len();
        let ghost s0 = self@;
        let lo = (value % 0x1_0000_0000) as u32;
        let hi = (value / 0x1_0000_0000) as u32;
        self.write_u32(offset, lo);
        let ghost s1 = self@;
        self.write_u32(offset + 4, hi);
        proof {
            lemma_two_halves(s0, s1, self@, offset as int, value as int, lo as int, hi as int);
        }
    }
}

} // verus!
