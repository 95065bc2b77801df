use krabs::con::inform;
use krabs::ios::PortOp;
use krabs::mem::MemoryRegion;
use krabs::text::{Writer, _print, TEXT_MODE_START, VRAM_SIZE};

fn vram() -> MemoryRegion {
    MemoryRegion::new(TEXT_MODE_START as u64, VRAM_SIZE)
}

fn cursor_ops(addr: usize) -> Vec<PortOp> {
    vec![
        PortOp::Out(10, 0x3D4),
        PortOp::Delay,
        PortOp::Out(1, 0x3D5),
        PortOp::Delay,
        PortOp::Out(11, 0x3D4),
        PortOp::Delay,
        PortOp::Out(0, 0x3D5),
        PortOp::Delay,
        PortOp::Out(14, 0x3D4),
        PortOp::Delay,
        PortOp::Out((addr >> 8) as u8, 0x3D5),
        PortOp::Delay,
        PortOp::Out(15, 0x3D4),
        PortOp::Delay,
        PortOp::Out((addr & 0xFF) as u8, 0x3D5),
        PortOp::Out(10, 0x3D4),
        PortOp::Delay,
        PortOp::Out(13, 0x3D5),
        PortOp::Delay,
        PortOp::Out(11, 0x3D4),
        PortOp::Delay,
        PortOp::Out(14, 0x3D5),
    ]
}

#[test]
fn putchar_draws_and_moves_cursor() {
    let mut w = Writer::new();
    let mut v = vram();
    let ops = w.putchar(&mut v, b'A');
    assert_eq!(v.read_u8(0), b'A');
    assert_eq!(v.read_u8(1), 0x07);
    assert_eq!(ops, cursor_ops(1));
    let ops = w.putchar(&mut v, b'\n');
    assert_eq!(ops, cursor_ops(80));
    w.putchar(&mut v, b'B');
    assert_eq!(v.read_u8(160), b'B');
}

#[test]
fn backspace_blanks_previous_cell() {
    let mut w = Writer::new();
    let mut v = vram();
    w.putchar(&mut v, b'x');
    w.putchar(&mut v, b'y');
    let ops = w.putchar(&mut v, 0x08);
    assert_eq!(v.read_u8(2), b' ');
    assert_eq!(v.read_u8(0), b'x');
    assert_eq!(ops, cursor_ops(1));
    // nothing happens at the left margin, and other control bytes are ignored
    let mut w = Writer::new();
    let mut v = vram();
    assert_eq!(w.putchar(&mut v, 0x08), cursor_ops(0));
    assert_eq!(w.putchar(&mut v, 0x07), cursor_ops(0));
    assert_eq!(v.read_u8(0), 0);
}

#[test]
fn color_and_pages() {
    let mut w = Writer::new();
    let mut v = vram();
    w.select_page(2);
    w.color(0x1F);
    w.putchar(&mut v, b'Z');
    assert_eq!(v.read_u8(0x1000), b'Z');
    assert_eq!(v.read_u8(0x1001), 0x1F);
    w.select_page(100);
    w.putchar(&mut v, b'Q');
    assert_eq!(v.read_u8(0x3800), b'Q');
}

#[test]
fn locate_clamps_past_the_edge() {
    let mut w = Writer::new();
    let mut v = vram();
    w.locate(200, 300);
    assert_eq!(w.cursor_pos(), cursor_ops(24 * 80 + 79));
    w.locate(80, 25);
    assert_eq!(w.cursor_pos(), cursor_ops(25 * 80 + 80));
    w.locate(3, 2);
    w.putchar(&mut v, b'k');
    assert_eq!(v.read_u8(2 * 160 + 6), b'k');
}

#[test]
fn wrap_and_scroll_at_bottom() {
    let mut w = Writer::new();
    let mut v = vram();
    w.locate(79, 24);
    w.putchar(&mut v, b'E');
    assert_eq!(w.cursor_pos(), cursor_ops(24 * 80));
    // the last row was at the bottom: the page scrolled, and the line after the page
    // is blank
    assert_eq!(v.read_u8(2000), b' ');
    assert_eq!(v.read_u8(2001), 0x07);
    assert_eq!(v.read_u8(2159), 0x07);
    assert_eq!(v.read_u8(3998), b'E');
}

#[test]
fn clear_blanks_lines() {
    let w = Writer::new();
    let mut v = vram();
    w.clear(&mut v);
    assert_eq!(v.read_u8(0), b' ');
    assert_eq!(v.read_u8(1), 0x07);
    assert_eq!(v.read_u8(2078), b' ');
    assert_eq!(v.read_u8(2079), 0x07);
    assert_eq!(v.read_u8(2080), 0);
}

#[test]
fn store_and_restore_cursor() {
    let mut w = Writer::new();
    let mut zp = MemoryRegion::new(0x7C00, 4096);
    w.locate(5, 6);
    w.store(&mut zp);
    assert_eq!(zp.read_u8(0), 5);
    assert_eq!(zp.read_u8(1), 6);
    let mut w2 = Writer::new();
    w2.restore(&zp);
    assert_eq!(w2.cursor_pos(), cursor_ops(6 * 80 + 5));
}

#[test]
fn print_writes_message_and_saves_cursor() {
    let mut w = Writer::new();
    let mut v = vram();
    let mut zp = MemoryRegion::new(0x7C00, 4096);
    zp.write_u8(0, 2);
    zp.write_u8(1, 1);
    let ops = _print(&mut w, &mut v, &mut zp, b"ok\n");
    assert_eq!(v.read_u8(160 + 4), b'o');
    assert_eq!(v.read_u8(160 + 6), b'k');
    assert_eq!(zp.read_u8(0), 0);
    assert_eq!(zp.read_u8(1), 2);
    let mut expect = cursor_ops(83);
    expect.extend(cursor_ops(84));
    expect.extend(cursor_ops(160));
    assert_eq!(ops, expect);
}

#[test]
fn inform_uses_teletype() {
    assert_eq!(inform(b"Hi"), vec![0x0e48, 0x0e69]);
    assert!(inform(b"").is_empty());
}

#[test]
fn backspace_returns_cursor() {
    let mut w = Writer::new();
    let mut v = vram();
    w.locate(10, 3);
    w.putchar(&mut v, b'q');
    let ops = w.putchar(&mut v, 0x08);
    assert_eq!(ops, cursor_ops(3 * 80 + 10));
    assert_eq!(v.read_u8(3 * 160 + 20), b' ');
}
