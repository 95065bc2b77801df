//! Leaving real mode: the port writes that quiet the coprocessor and the interrupt
//! controllers, the descriptor tables, the jump into protected mode, and the
//! opening of the A20 line.
use vstd::prelude::*;
use crate::ios::{PortOp, outb, io_delay};

verus! {

/// The writes that reset the math coprocessor.
pub open spec fn reset_coprocessor_ops() -> Seq<PortOp> {
    seq![PortOp::Out(0, 0xF0), PortOp::Delay, PortOp::Out(0, 0xF1), PortOp::Delay]
}

/// The writes that mask every interrupt of both interrupt controllers but the cascade.
pub open spec fn mask_all_interrupts_ops() -> Seq<PortOp> {
    seq![PortOp::Out(0xFF, 0xA1), PortOp::Delay, PortOp::Out(0xFB, 0x21), PortOp::Delay]
}

/// Reset the math coprocessor.
pub fn reset_coprocessor() -> (r: Vec<PortOp>)
    ensures
        r@ == reset_coprocessor_ops(),
{
    let mut ops: Vec<PortOp> = Vec::new();
    outb(&mut ops, 0, 0xF0);
    io_delay(&mut ops);
    outb(&mut ops, 0, 0xF1);
    io_delay(&mut ops);
    assert(ops@ =~= reset_coprocessor_ops());
    ops
}

/// Mask the interrupts of both interrupt controllers.
pub fn mask_all_interrupts() -> (r: Vec<PortOp>)
    ensures
        r@ == mask_all_interrupts_ops(),
{
    let mut ops: Vec<PortOp> = Vec::new();
    outb(&mut ops, 0xFF, 0xA1);
    io_delay(&mut ops);
    outb(&mut ops, 0xFB, 0x21);
    io_delay(&mut ops);
    assert(ops@ =~= mask_all_interrupts_ops());
    ops
}

/// Everything the switch to protected mode takes: the port writes to make first, the
/// global descriptor table and the limits of both descriptor table registers, the
/// selectors of the code and data segments, the entry and the stack.
#[derive(Debug)]
pub struct ModeSwitch {
    pub ports: Vec<PortOp>,
    pub gdt: [u64; 4],
    pub gdt_limit: u16,
    pub idt_limit: u16,
    pub code_selector: u16,
    pub data_selector: u16,
    pub entry: u32,
    pub stack: u32,
}

/// The flat 4 GiB code and data segments of protected mode, after two null entries.
pub open spec fn protected_gdt() -> Seq<u64> {
    seq![0u64, 0u64, 0x00CF9A000000FFFFu64, 0x00CF92000000FFFFu64]
}

/// The switch to protected mode that enters at `entry_addr` with the stack at
/// `prot_stack`.
pub fn move_to_protect(entry_addr: u32, prot_stack: u32) -> (r: ModeSwitch)
    ensures
        r.ports@ == reset_coprocessor_ops() + mask_all_interrupts_ops(),
        r.gdt@ == protected_gdt(),
        r.gdt_limit == 0x800,
        r.idt_limit == 0,
        r.code_selector == 0x10,
        r.data_selector == 0x18,
        r.entry == entry_addr,
        r.stack == prot_stack,
{
    let mut ports = reset_coprocessor();
    let mut mask = mask_all_interrupts();
    ports.append(&mut mask);
    let gdt: [u64; 4] = [0x0000000000000000, 0x0000000000000000, 0x00CF9A000000FFFF, 0x00CF92000000FFFF];
    assert(gdt@ =~= protected_gdt());
    ModeSwitch {
        ports,
        gdt,
        gdt_limit: 0x800,
        idt_limit: 0,
        code_selector: 0x10,
        data_selector: 0x18,
        entry: entry_addr,
        stack: prot_stack,
    }
}

/// What to do with the keyboard controller after reading its status byte.
#[derive(Debug, Clone, Copy, PartialEq, Eq, Structural)]
pub enum FlushStep {
    /// Read and drop a byte from the data port, then poll again.
    Drain,
    /// The input buffer is still full: poll again.
    Poll,
    /// Both buffers are empty.
    Done,
}

/// One round of emptying the keyboard controller, whose status port read `stat`.
pub fn flush_8042(stat: u8) -> (r: FlushStep)
    ensures
        stat & 0x01 != 0 ==> r == FlushStep::Drain,
        stat & 0x01 == 0 && stat & 0x02 != 0 ==> r == FlushStep::Poll,
        stat & 0x01 == 0 && stat & 0x02 == 0 ==> r == FlushStep::Done,
{
    if stat & 0x01 != 0 {
        FlushStep::Drain
    } else if stat & 0x02 != 0 {
        FlushStep::Poll
    } else {
        FlushStep::Done
    }
}

/// How far the opening of the A20 line has come.
#[derive(Debug, Clone, Copy, PartialEq, Eq, Structural)]
pub enum A20Stage {
    Start,
    AfterClassic,
    AfterFast,
}

/// What to do next to open the A20 line.
#[derive(Debug)]
pub enum A20Action {
    /// The line is open; report how.
    Done(&'static str),
    /// Ask the keyboard controller to open it (`classic_a20`), then check again.
    Classic,
    /// Read port 0x92 and set its bit 1 (`fast_a20`), then check again.
    Fast,
    /// Check again.
    Recheck,
}

/// The next action when the line was found open (`enabled`) or not at `stage`.
pub fn enable_a20(stage: A20Stage, enabled: bool) -> (r: A20Action)
    ensures
        stage == A20Stage::Start && enabled ==> (r matches A20Action::Done(m) && m@
            == "  A20 line is already activate."@),
        stage == A20Stage::Start && !enabled ==> r is Classic,
        stage == A20Stage::AfterClassic && enabled ==> (r matches A20Action::Done(m) && m@
            == "  A20 line is activated by classical method."@),
        stage == A20Stage::AfterClassic && !enabled ==> r is Fast,
        stage == A20Stage::AfterFast && enabled ==> (r matches A20Action::Done(m) && m@
            == "  A20 line is activated by fast method."@),
        stage == A20Stage::AfterFast && !enabled ==> r is Recheck,
{
    match stage {
        A20Stage::Start => if enabled {
            A20Action::Done("  A20 line is already activate.")
        } else {
            A20Action::Classic
        },
        A20Stage::AfterClassic => if enabled {
            A20Action::Done("  A20 line is activated by classical method.")
        } else {
            A20Action::Fast
        },
        A20Stage::AfterFast => if enabled {
            A20Action::Done("  A20 line is activated by fast method.")
        } else {
            A20Action::Recheck
        },
    }
}

/// One step of the classical way of opening the A20 line.
#[derive(Debug, Clone, Copy, PartialEq, Eq, Structural)]
pub enum KbcStep {
    /// Empty the keyboard controller (`flush_8042` until `Done`).
    Flush,
    /// Perform this port operation.
    Port(PortOp),
}

/// The steps of the classical method, as the loader issues them: empty the controller,
/// write 0x64 to port 0xD1, empty it, write 0x60 to port 0xDF, empty it.
pub open spec fn classic_a20_steps() -> Seq<KbcStep> {
    seq![
        KbcStep::Flush,
        KbcStep::Port(PortOp::Out(0x64, 0xD1)),
        KbcStep::Flush,
        KbcStep::Port(PortOp::Out(0x60, 0xDF)),
        KbcStep::Flush,
    ]
}

/// The steps of the classical method of opening the A20 line.
pub fn classic_a20() -> (r: Vec<KbcStep>)
    ensures
        r@ == classic_a20_steps(),
{
    let mut steps: Vec<KbcStep> = Vec::new();
    steps.push(KbcStep::Flush);
    steps.push(KbcStep::Port(PortOp::Out(0x64, 0xD1)));
    steps.push(KbcStep::Flush);
    steps.push(KbcStep::Port(PortOp::Out(0x60, 0xDF)));
    steps.push(KbcStep::Flush);
    assert(steps@ =~= classic_a20_steps());
    steps
}

/// The port operations of the fast method once port 0x92 has been read as `data`:
/// wait, then write it back with bit 1 set.
pub fn fast_a20(data: u8) -> (r: Vec<PortOp>)
    ensures
        r@ == seq![PortOp::Delay, PortOp::Out(data | 2, 0x92)],
{
    let mut ops: Vec<PortOp> = Vec::new();
    io_delay(&mut ops);
    outb(&mut ops, data | 2, 0x92);
    assert(ops@ =~= seq![PortOp::Delay, PortOp::Out(data | 2, 0x92)]);
    ops
}

} // verus!
