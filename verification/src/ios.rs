//! Port input and output, described as the operations that the caller performs.
use vstd::prelude::*;

verus! {

/// One operation on the I/O ports.
#[derive(Debug, Clone, Copy, PartialEq, Eq, Structural)]
pub enum PortOp {
    /// Write the byte to the port.
    Out(u8, usize),
    /// Wait for a moment by reading the unused port 0x80 twice.
    Delay,
}

/// Append a write of `data` to `port`.
pub fn outb(ops: &mut Vec<PortOp>, data: u8, port: usize)
    ensures
        final(ops)@ == old(ops)@.push(PortOp::Out(data, port)),
{
    ops.push(PortOp::Out(data, port));
}

/// Append a short wait.
pub fn io_delay(ops: &mut Vec<PortOp>)
    ensures
        final(ops)@ == old(ops)@.push(PortOp::Delay),
{
    ops.push(PortOp::Delay);
}

} // verus!
