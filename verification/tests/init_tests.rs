use krabs::init::{
    detect_memory_88, detect_memory_e801, detect_memory_e820, e820_next, query_ist, set_cmdline,
    set_image, set_keyboard, set_mem_size, set_version, setup, BiosInfo, E801Reply, E820Entry,
    E820Reply, IstInfo, Pages, SMAP,
};
use krabs::mem::MemoryRegion;

fn zp() -> MemoryRegion {
    MemoryRegion::new(0, 0x1000)
}

fn reply(next: u32, addr: u64) -> E820Reply {
    E820Reply { flag: 0, smap: SMAP, next, entry: E820Entry { addr, size: 0x1000, entry_type: 1 } }
}

#[test]
fn clear_halves() {
    let mut z = MemoryRegion::from_slice(&[0xAAu8; 0x1000]);
    Pages::FirstHalf.clear(&mut z);
    assert_eq!(z.read_u8(0), 0);
    assert_eq!(z.read_u8(0x7FF), 0);
    assert_eq!(z.read_u8(0x800), 0xAA);
    Pages::SecondHalf.clear(&mut z);
    assert_eq!(z.read_u8(0xFFF), 0);
}

#[test]
fn cmdline_copied_to_front() {
    let mut c = MemoryRegion::from_slice(&[0xFFu8; 120]);
    set_cmdline(&mut c, b"quiet");
    assert_eq!(c.read_u8(0), b'q');
    assert_eq!(c.read_u8(4), b't');
    assert_eq!(c.read_u8(5), 0xFF);
}

#[test]
fn image_and_version_fields() {
    let mut z = zp();
    set_image(&mut z, 0x1000, 0x200);
    assert_eq!(z.read_u32(0x218), 0x0090_0000);
    assert_eq!(z.read_u32(0x21C), 0x200);
    assert_eq!(z.read_u32(0x100), 0x1000);
    set_version(&mut z);
    assert_eq!(z.read_u16(0x1FE), 0xaa55);
    assert_eq!(z.read_u32(0x202), 0x5372_6448);
    assert_eq!(z.read_u16(0x206), 0x020C);
    assert_eq!(z.read_u8(0x210), 0xff);
    assert_eq!(z.read_u32(0x230), 0x0100_0000);
}

#[test]
fn keyboard_and_ist() {
    let mut z = zp();
    set_keyboard(&mut z, 0x20);
    assert_eq!(z.read_u8(0x1eb), 0x20);
    query_ist(&mut z, IstInfo { signature: 1, command: 2, event: 3, perf_level: 4 });
    assert_eq!(z.read_u32(0x60), 1);
    assert_eq!(z.read_u32(0x6c), 4);
}

#[test]
fn e820_table_and_count() {
    let mut z = zp();
    let rs = [reply(1, 0), reply(2, 0x100000), reply(0, 0x200000)];
    assert_eq!(e820_next(&rs[0], 0), Some(1));
    assert_eq!(e820_next(&rs[2], 2), None);
    detect_memory_e820(&mut z, &rs);
    assert_eq!(z.read_u8(0x1e8), 3);
    assert_eq!(z.read_u64(0x2d0 + 20), 0x100000);
    assert_eq!(z.read_u64(0x2d0 + 40 + 8), 0x1000);
    assert_eq!(z.read_u32(0x2d0 + 40 + 16), 1);
}

#[test]
fn e820_carry_and_bad_signature() {
    let mut z = zp();
    let mut bad = reply(0, 0);
    bad.flag = 1;
    detect_memory_e820(&mut z, &[reply(1, 0x5000), bad]);
    assert_eq!(z.read_u8(0x1e8), 1);
    let mut z = zp();
    let mut wrong = reply(0, 0);
    wrong.smap = 0;
    detect_memory_e820(&mut z, &[reply(1, 0x5000), wrong]);
    assert_eq!(z.read_u8(0x1e8), 0);
    // the entry written before the bad answer stays
    assert_eq!(z.read_u64(0x2d0), 0x5000);
    let mut z = zp();
    detect_memory_e820(&mut z, &[]);
    assert_eq!(z.read_u8(0x1e8), 0);
}

#[test]
fn e801_sizes() {
    let mut z = zp();
    detect_memory_e801(&mut z, E801Reply { ax: 1024, bx: 7, flag: 0 });
    assert_eq!(z.read_u32(0x1E0), 1024);
    detect_memory_e801(&mut z, E801Reply { ax: 15 * 1024, bx: 100, flag: 0 });
    assert_eq!(z.read_u32(0x1E0), 100 * 64 + 15 * 1024);
    let mut z = zp();
    detect_memory_e801(&mut z, E801Reply { ax: 15 * 1024 + 1, bx: 100, flag: 0 });
    assert_eq!(z.read_u32(0x1E0), 0);
    detect_memory_e801(&mut z, E801Reply { ax: 100, bx: 100, flag: 1 });
    assert_eq!(z.read_u32(0x1E0), 0);
    detect_memory_88(&mut z, 0xFC00);
    assert_eq!(z.read_u16(0x002), 0xFC00);
}

#[test]
fn setup_fills_zero_page() {
    let mut z = MemoryRegion::from_slice(&[0x55u8; 0x1000]);
    let mut c = MemoryRegion::new(0x1000, 120);
    let bios = BiosInfo {
        e820: vec![reply(0, 0)],
        e801: E801Reply { ax: 512, bx: 0, flag: 0 },
        mem88: 0x3C00,
        keyboard: 3,
        ist: IstInfo { signature: 9, command: 0, event: 0, perf_level: 0 },
    };
    setup(&mut z, &mut c, 4, 2, b"root=/dev/sda", &bios);
    assert_eq!(z.read_u8(0x500), 0);
    assert_eq!(z.read_u32(0x100), 4 * 512);
    assert_eq!(z.read_u32(0x21C), 2 * 512);
    assert_eq!(z.read_u32(0x218), 0x0090_0000);
    assert_eq!(z.read_u32(0x202), u32::from_le_bytes(*b"HdrS"));
    assert_eq!(z.read_u8(0x1e8), 1);
    assert_eq!(z.read_u32(0x1E0), 512);
    assert_eq!(z.read_u16(0x002), 0x3C00);
    assert_eq!(z.read_u8(0x1eb), 3);
    assert_eq!(z.read_u32(0x60), 9);
    assert_eq!(z.read_u16(0x1FE), 0xaa55);
    assert_eq!(c.read_u8(0), b'r');
    let mut z2 = zp();
    set_mem_size(&mut z2, &bios.e820, bios.e801, bios.mem88);
    assert_eq!(z2.read_u16(0x002), 0x3C00);
}

#[test]
fn cursor_saved_and_restored() {
    let mut z = zp();
    krabs::init::set_cur(&mut z, 0x0C05);
    assert_eq!(z.read_u8(0), 0x05);
    assert_eq!(z.read_u8(1), 0x0C);
    assert_eq!(krabs::init::re_cur(&z), 0x0C05);
}
