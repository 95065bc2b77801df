//! The UEFI greeting: the status type of UEFI calls and the UCS-2 text it prints.
use vstd::prelude::*;

verus! {

/// The status a UEFI call returns.
#[derive(Debug, Clone, Copy, PartialEq, Eq, Structural)]
pub enum EfiStatus {
    SUCCESS,
}

/// The UCS-2 buffer of 32 units that holds the ASCII text `s`, padded with zeros
/// (which also terminate it when it is shorter than the buffer).
pub fn ucs2_buffer(s: &[u8]) -> (buf: [u16; 32])
    requires
        s@.len() <= 32,
    ensures
        forall|i: int| 0 <= i < s@.len() ==> #[trigger] buf@[i] == s@[i] as u16,
        forall|i: int| s@.len() <= i < 32 ==> #[trigger] buf@[i] == 0,
{
    let mut buf = [0u16; 32];
    let mut i: usize = 0;
    while i < s.len()
        invariant
            s@.len() <= 32,
            i <= s@.len(),
            buf@.len() == 32,
            forall|j: int| 0 <= j < i ==> #[trigger] buf@[j] == s@[j] as u16,
            forall|j: int| i <= j < 32 ==> #[trigger] buf@[j] == 0,
        decreases s@.len() - i,
    {
        buf[i] = s[i] as u16;
        i = i + 1;
    }
    buf
}

} // verus!
