//! Messages on the BIOS console before the text-mode console takes over.
use vstd::prelude::*;

verus! {

/// The value of the AX register for the BIOS teletype service that prints `ch`.
pub open spec fn teletype_ax(ch: u8) -> u16 {
    (0x0e00 + ch) as u16
}

/// The BIOS teletype calls (their AX values, with BX = 7) that print the bytes of `s`
/// in order.
pub fn inform(s: &[u8]) -> (r: Vec<u16>)
    ensures
        r@.len() == s@.len(),
        forall|i: int| 0 <= i < s@.len() ==> #[trigger] r@[i] == teletype_ax(s@[i]),
{
    let mut calls: Vec<u16> = Vec::new();
    let mut i: usize = 0;
    while i < s.len()
        invariant
            i <= s@.len(),
            calls@.len() == i,
            forall|j: int| 0 <= j < i ==> #[trigger] calls@[j] == teletype_ax(s@[j]),
        decreases s@.len() - i,
    {
        let c = s[i];
        let ax: u16 = 0x0e00 | (c as u16 & 0xff);
        assert(0x0e00u16 | (c as u16 & 0xffu16) == 0x0e00u16 + c as u16) by (bit_vector);
        calls.push(ax);
        i = i + 1;
    }
    calls
}

} // verus!
