use krabs::efi::{ucs2_buffer, EfiStatus};
use krabs::heap::{Alloc, Heap};
use krabs::ios::PortOp;
use krabs::mem::MemoryRegion;
use krabs::mpm::{
    classic_a20, enable_a20, fast_a20, flush_8042, KbcStep, mask_all_interrupts, move_to_protect,
    reset_coprocessor, A20Action, A20Stage, FlushStep,
};
use krabs::svm::{setup_page_tables, start_kernel, PGTABLE_SIZE};

#[test]
fn port_sequences() {
    assert_eq!(
        reset_coprocessor(),
        vec![PortOp::Out(0, 0xF0), PortOp::Delay, PortOp::Out(0, 0xF1), PortOp::Delay]
    );
    assert_eq!(
        mask_all_interrupts(),
        vec![PortOp::Out(0xFF, 0xA1), PortOp::Delay, PortOp::Out(0xFB, 0x21), PortOp::Delay]
    );
    let m = move_to_protect(0x6000, 0x9a000);
    assert_eq!(m.ports.len(), 8);
    assert_eq!(m.gdt, [0, 0, 0x00CF9A000000FFFF, 0x00CF92000000FFFF]);
    assert_eq!(m.entry, 0x6000);
    assert_eq!(m.stack, 0x9a000);
    assert_eq!(m.code_selector, 0x10);
}

#[test]
fn keyboard_controller_flush() {
    assert_eq!(flush_8042(0x01), FlushStep::Drain);
    assert_eq!(flush_8042(0x03), FlushStep::Drain);
    assert_eq!(flush_8042(0x02), FlushStep::Poll);
    assert_eq!(flush_8042(0x1C), FlushStep::Done);
}

#[test]
fn a20_steps() {
    assert!(matches!(enable_a20(A20Stage::Start, true), A20Action::Done("  A20 line is already activate.")));
    assert!(matches!(enable_a20(A20Stage::Start, false), A20Action::Classic));
    assert!(matches!(enable_a20(A20Stage::AfterClassic, false), A20Action::Fast));
    assert!(matches!(
        enable_a20(A20Stage::AfterFast, true),
        A20Action::Done("  A20 line is activated by fast method.")
    ));
    assert!(matches!(enable_a20(A20Stage::AfterFast, false), A20Action::Recheck));
    assert_eq!(fast_a20(0x00), vec![PortOp::Delay, PortOp::Out(0x02, 0x92)]);
    assert_eq!(fast_a20(0x03), vec![PortOp::Delay, PortOp::Out(0x03, 0x92)]);
    assert_eq!(
        classic_a20(),
        vec![
            KbcStep::Flush,
            KbcStep::Port(PortOp::Out(0x64, 0xD1)),
            KbcStep::Flush,
            KbcStep::Port(PortOp::Out(0x60, 0xDF)),
            KbcStep::Flush,
        ]
    );
}

#[test]
fn page_tables_identity_map() {
    let mut pt = MemoryRegion::from_slice(&vec![0xFFu8; PGTABLE_SIZE as usize]);
    setup_page_tables(&mut pt);
    assert_eq!(pt.read_u64(0), 0x2007);
    assert_eq!(pt.read_u64(8), 0);
    assert_eq!(pt.read_u64(0x1000), 0x3007);
    assert_eq!(pt.read_u64(0x1000 + 24), 0x6007);
    assert_eq!(pt.read_u64(0x1000 + 32), 0);
    assert_eq!(pt.read_u64(0x2000), 0x183);
    assert_eq!(pt.read_u64(0x2000 + 8), 0x200183);
    // the last 2 MiB page below 4 GiB
    assert_eq!(pt.read_u64(0x2000 + 8 * 2047), 0xFFE0_0183);
    let mut pt = MemoryRegion::new(0x1000, PGTABLE_SIZE);
    let j = start_kernel(&mut pt, 0x1000000);
    assert_eq!(j.entry, 0x1000000);
    assert_eq!(j.pgtable, 0x1000);
    assert_eq!(j.gdt[2], 0x00AF9A000000FFFF);
    assert_eq!(j.esi, 0x7C00);
}

#[test]
fn bump_allocators() {
    let mut a = Alloc::new();
    assert_eq!(a.allocate(64, 16), Some(0x0760_0000));
    assert_eq!(a.allocate(1, 8), Some(0x0760_0010));
    assert_eq!(a.allocate(1, 32), Some(0x0760_0020));
    let mut h = Heap::new();
    assert_eq!(h.malloc(100), Some(0x0160_0000));
    assert_eq!(h.malloc(4), Some(0x0160_0064));
    assert_eq!(h.malloc(0x0030_0000), None);
    assert_eq!(h.malloc(4), Some(0x0160_0068));
    assert_eq!(h.malloc(0x0190_0000 - 0x0160_006C), Some(0x0160_006C));
    assert_eq!(h.malloc(1), None);
}

#[test]
fn alloc_reaches_end() {
    let mut a = Alloc::new();
    assert_eq!(a.allocate(0, 0x0040_0000), Some(0x0780_0000));
    assert_eq!(a.allocate(0, 0x0040_0000), None);
}

#[test]
fn efi_text_buffer() {
    let b = ucs2_buffer(b"hello UEFI");
    assert_eq!(b[0], b'h' as u16);
    assert_eq!(b[9], b'I' as u16);
    assert_eq!(b[10], 0);
    assert_eq!(EfiStatus::SUCCESS, EfiStatus::SUCCESS);
}
