//! The boot configuration file: `main.kernel`, `main.initrd` and `main.cmdlin` lines.
use vstd::prelude::*;
use vstd::string::StringSliceAdditionalSpecFns;
use vstd::utf8::{valid_utf8, is_continuation_byte, is_char_boundary};

verus! {

broadcast use {
    vstd::utf8::encode_utf8_valid_utf8,
    vstd::utf8::is_char_boundary_start_end_of_seq,
    vstd::utf8::is_char_boundary_iff_not_is_continuation_byte,
    vstd::utf8::valid_utf8_split,
};

/// The index of the line feed that ends the line starting at `a`, or the text's
/// length when the line is the last one and has none.
pub open spec fn line_end(b: Seq<u8>, a: int) -> int
    decreases b.len() - a,
{
    if a < 0 || a >= b.len() {
        b.len() as int
    } else if b[a] == 0x0A {
        a
    } else {
        line_end(b, a + 1)
    }
}

/// Where the text of the line starting at `a` ends: before its line feed, and before a
/// carriage return that precedes the line feed.
pub open spec fn content_end(b: Seq<u8>, a: int) -> int {
    let e = line_end(b, a);
    if e < b.len() && e > a && b[e - 1] == 0x0D {
        e - 1
    } else {
        e
    }
}

/// `line` begins with `p`.
pub open spec fn starts_with(line: Seq<u8>, p: Seq<u8>) -> bool {
    p.len() <= line.len() && line.subrange(0, p.len() as int) == p
}

pub proof fn lemma_line_end(b: Seq<u8>, a: int)
    requires
        0 <= a <= b.len(),
    ensures
        a <= line_end(b, a) <= b.len(),
        forall|i: int| a <= i < line_end(b, a) ==> b[i] != 0x0A,
        line_end(b, a) < b.len() ==> b[line_end(b, a)] == 0x0A,
    decreases b.len() - a,
{
    if a < b.len() && b[a] != 0x0A {
        lemma_line_end(b, a + 1);
    }
}

/// The start of the first line at or after the line starting at `a` that begins with
/// `p`, or -1.
pub open spec fn item_line(b: Seq<u8>, p: Seq<u8>, a: int) -> int
    decreases b.len() - a,
{
    if a < 0 || a >= b.len() {
        -1
    } else if starts_with(b.subrange(a, content_end(b, a)), p) {
        a
    } else if line_end(b, a) >= b.len() {
        -1
    } else {
        proof {
            lemma_line_end(b, a);
        }
        item_line(b, p, line_end(b, a) + 1)
    }
}

/// The value of the first line that begins with `p`: what follows `p` and one more
/// byte, up to the end of the line.
pub open spec fn item_value(b: Seq<u8>, p: Seq<u8>) -> Option<Seq<u8>> {
    let a = item_line(b, p, 0);
    if a < 0 {
        None
    } else {
        Some(b.subrange(a + p.len() + 1, content_end(b, a)))
    }
}

/// The value of the first line that begins with `p` can be cut out: the line is longer
/// than `p` and the cut falls on a character boundary.
pub open spec fn item_defined(b: Seq<u8>, p: Seq<u8>) -> bool {
    let a = item_line(b, p, 0);
    a >= 0 ==> {
        let v = a + p.len() + 1;
        &&& v <= content_end(b, a)
        &&& v < b.len() ==> !is_continuation_byte(b[v])
    }
}

/// The contents of the configuration: the kernel to boot, and optionally the initial
/// ramdisk and the kernel command line.
#[derive(Debug)]
pub struct Config<'a> {
    pub kernel: &'a str,
    pub initrd: Option<&'a str>,
    pub cmdlin: Option<&'a str>,
}

/// `r` is what `get_item` gives for `p` in `b`.
pub open spec fn item_result(r: Option<&str>, b: Seq<u8>, p: Seq<u8>) -> bool {
    match item_value(b, p) {
        None => r is None,
        Some(v) => r is Some && r->Some_0.spec_bytes() == v,
    }
}

/// The value of the first line of `contents` that begins with `pat`.
pub fn get_item<'a, 'b>(contents: &'a str, pat: &'b str) -> (r: Option<&'a str>)
    requires
        item_defined(contents.spec_bytes(), pat.spec_bytes()),
    ensures
        item_result(r, contents.spec_bytes(), pat.spec_bytes()),
{
    let b = contents.as_bytes();
    let p = pat.as_bytes();
    let ghost bs = b@;
    let ghost ps = p@;
    let len = b.len();
    let plen = p.len();
    let mut a: usize = 0;
    while a < len
        invariant
            bs == b@,
            bs == contents.spec_bytes(),
            ps == p@,
            ps == pat.spec_bytes(),
            len == bs.len(),
            plen == ps.len(),
            a <= len,
            item_line(bs, ps, 0) == item_line(bs, ps, a as int),
            item_defined(bs, ps),
        decreases len - a,
    {
        let mut e = a;
        while e < len && b[e] != 0x0A
            invariant
                bs == b@,
                len == bs.len(),
                a <= e <= len,
                line_end(bs, a as int) == line_end(bs, e as int),
            decreases len - e,
        {
            e = e + 1;
        }
        let ce = if e < len && e > a && b[e - 1] == 0x0D {
            e - 1
        } else {
            e
        };
        assert(ce == content_end(bs, a as int));
        let mut matches = ce - a >= plen;
        if matches {
            let mut i: usize = 0;
            while i < plen
                invariant
                    bs == b@,
                    ps == p@,
                    plen == ps.len(),
                    a + plen <= ce,
                    ce <= bs.len(),
                    i <= plen,
                    matches == (forall|j: int| 0 <= j < i ==> bs[a + j] == ps[j]),
                decreases plen - i,
            {
                if b[a + i] != p[i] {
                    matches = false;
                }
                i = i + 1;
            }
        }
        assert(matches == starts_with(bs.subrange(a as int, ce as int), ps)) by {
            if matches {
                assert(bs.subrange(a as int, ce as int).subrange(0, plen as int) =~= ps);
            }
            if starts_with(bs.subrange(a as int, ce as int), ps) {
                assert forall|j: int| 0 <= j < plen implies bs[a + j] == ps[j] by {
                    assert(bs.subrange(a as int, ce as int).subrange(0, plen as int)[j] == ps[j]);
                }
            }
        }
        if matches {
            let v = a + plen + 1;
            proof {
                assert(item_line(bs, ps, 0) == a);
                assert(valid_utf8(bs));
                assert(is_char_boundary(bs, v as int));
            }
            let (_, rest) = contents.split_at(v);
            proof {
                let rb = rest.spec_bytes();
                assert(rb =~= bs.subrange(v as int, len as int));
                vstd::utf8::valid_utf8_split(bs, v as int);
                assert(valid_utf8(rb));
                if ce < len {
                    lemma_line_end(bs, a as int);
                    assert(rb[ce - v] == bs[ce as int]);
                    assert(bs[ce as int] == 0x0A || bs[ce as int] == 0x0D);
                    vstd::utf8::is_char_boundary_iff_not_is_continuation_byte(rb, ce - v);
                } else {
                    vstd::utf8::is_char_boundary_start_end_of_seq(rb);
                    assert(rb.len() == ce - v);
                }
                assert(is_char_boundary(rb, ce - v));
            }
            let (val, _) = rest.split_at(ce - v);
            assert(val.spec_bytes() =~= bs.subrange(v as int, ce as int));
            return Some(val);
        }
        if e >= len {
            return None;
        }
        proof {
            lemma_line_end(bs, a as int);
        }
        a = e + 1;
    }
    None
}

impl<'a> Config<'a> {
    /// Read the configuration from `contents`; fails when no kernel is named.
    pub fn new(contents: &'a str) -> (r: Result<Self, &'static str>)
        requires
            item_defined(contents.spec_bytes(), "main.kernel".spec_bytes()),
            item_defined(contents.spec_bytes(), "main.initrd".spec_bytes()),
            item_defined(contents.spec_bytes(), "main.cmdlin".spec_bytes()),
        ensures
            item_value(contents.spec_bytes(), "main.kernel".spec_bytes()) is None ==> r is Err
                && r->Err_0@ == "Kernel file is not specifyed!"@,
            item_value(contents.spec_bytes(), "main.kernel".spec_bytes()) is Some ==> r is Ok
                && item_result(Some(r->Ok_0.kernel), contents.spec_bytes(), "main.kernel".spec_bytes())
                && item_result(r->Ok_0.initrd, contents.spec_bytes(), "main.initrd".spec_bytes())
                && item_result(r->Ok_0.cmdlin, contents.spec_bytes(), "main.cmdlin".spec_bytes()),
    {
        let kernel = get_item(contents, "main.kernel");
        let initrd = get_item(contents, "main.initrd");
        let cmdlin = get_item(contents, "main.cmdlin");
        if let Some(kernel) = kernel {
            Ok(Self { kernel, initrd, cmdlin })
        } else {
            Err("Kernel file is not specifyed!")
        }
    }
}

} // verus!
