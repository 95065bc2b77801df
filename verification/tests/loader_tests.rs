use krabs::loader::config::{get_item, Config};
use krabs::loader::{load_elf, load_segment, setup_cmdline, setup_zero_page, GuestAddress, LoadSegment, ParseError};
use krabs::mem::MemoryRegion;

#[test]
fn config_items() {
    let text = "main.kernel vmlinux-5.8.3\nmain.initrd initramfs.cpio.gz\nmain.cmdlin clocksource=tsc\n";
    let c = Config::new(text).unwrap();
    assert_eq!(c.kernel, "vmlinux-5.8.3");
    assert_eq!(c.initrd, Some("initramfs.cpio.gz"));
    assert_eq!(c.cmdlin, Some("clocksource=tsc"));
}

#[test]
fn config_crlf_and_missing() {
    let c = Config::new("main.cmdlin quiet\r\nmain.kernel bzImage\r\n").unwrap();
    assert_eq!(c.kernel, "bzImage");
    assert_eq!(c.cmdlin, Some("quiet"));
    assert_eq!(c.initrd, None);
    assert_eq!(Config::new("main.initrd x\n").unwrap_err(), "Kernel file is not specifyed!");
    assert_eq!(Config::new("").unwrap_err(), "Kernel file is not specifyed!");
}

#[test]
fn first_matching_line_wins() {
    assert_eq!(get_item("a 1\nab 2\na 3", "a"), Some("1"));
    assert_eq!(get_item("ab 2\na 3", "a"), Some(" 2"));
    assert_eq!(get_item("x\ny", "z"), None);
    assert_eq!(get_item("key value", "key"), Some("value"));
    assert_eq!(get_item("key ", "key"), Some(""));
}

#[test]
fn messages() {
    assert_eq!(ParseError::InvalidElfMagicNumber.stringify(), "Invalid ELF magic number");
    assert_eq!(ParseError::InvalidArchitecture.stringify(), "Unsupported target acrhitecture");
}

fn elf64(entry: u64, paddr: u64) -> Vec<u8> {
    let mut v = vec![0u8; 64 + 56 + 16];
    v[0..4].copy_from_slice(&[127, b'E', b'L', b'F']);
    v[4] = 2;
    v[5] = 1;
    v[24..32].copy_from_slice(&entry.to_le_bytes());
    v[32..40].copy_from_slice(&64u64.to_le_bytes());
    v[54..56].copy_from_slice(&56u16.to_le_bytes());
    v[56..58].copy_from_slice(&1u16.to_le_bytes());
    let ph = 64;
    v[ph..ph + 4].copy_from_slice(&1u32.to_le_bytes());
    v[ph + 8..ph + 16].copy_from_slice(&120u64.to_le_bytes());
    v[ph + 24..ph + 32].copy_from_slice(&paddr.to_le_bytes());
    v[ph + 32..ph + 40].copy_from_slice(&16u64.to_le_bytes());
    v[ph + 40..ph + 48].copy_from_slice(&24u64.to_le_bytes());
    v
}

#[test]
fn elf64_segments_listed() {
    let img = MemoryRegion::from_slice(&elf64(0x1000000, 0x1000000));
    let (segs, entry) = load_elf(&img);
    assert_eq!(entry, Ok(GuestAddress::Addr64(0x1000000)));
    assert_eq!(segs, vec![LoadSegment { paddr: 0x1000000, offset: 120, size: 16, mem_size: 24 }]);
}

#[test]
fn elf_errors() {
    let img = MemoryRegion::from_slice(&elf64(0x1000, 0x1000000));
    assert_eq!(load_elf(&img), (vec![], Err(ParseError::InvalidEntryAddress)));
    let img = MemoryRegion::from_slice(&elf64(0x1000000, 0x1000));
    assert_eq!(load_elf(&img).1, Err(ParseError::InvalidProgramHeaderAddress));
    let mut bad = elf64(0x1000000, 0x1000000);
    bad[0] = 0;
    assert_eq!(load_elf(&MemoryRegion::from_slice(&bad)).1, Err(ParseError::InvalidElfMagicNumber));
    let mut bad = elf64(0x1000000, 0x1000000);
    bad[5] = 2;
    assert_eq!(load_elf(&MemoryRegion::from_slice(&bad)).1, Err(ParseError::InvalidElfEndian));
    let mut bad = elf64(0x1000000, 0x1000000);
    bad[4] = 3;
    assert_eq!(load_elf(&MemoryRegion::from_slice(&bad)).1, Err(ParseError::InvalidArchitecture));
    let mut bad = elf64(0x1000000, 0x1000000);
    bad[54] = 32;
    assert_eq!(load_elf(&MemoryRegion::from_slice(&bad)).1, Err(ParseError::InvalidProgramHeaderSize));
}

#[test]
fn command_line_and_zero_page() {
    let c = setup_cmdline("ro");
    assert_eq!(c.len(), 3);
    assert_eq!(c.read_u8(0), b'r');
    assert_eq!(c.read_u8(2), 0);
    let mut zp = MemoryRegion::new(0x7C00, 4096);
    setup_zero_page(&mut zp, 0x5000, 0x300);
    assert_eq!(zp.read_u32(0x218), 0x0560_0000);
    assert_eq!(zp.read_u32(0x21C), 0x300);
    assert_eq!(zp.read_u16(0x1fc), 0x0100);
    assert_eq!(zp.read_u32(0x100), 0x5000);
    assert_eq!(zp.read_u32(0x228), 0x0002_0000);
}

#[test]
fn segments_before_a_bad_header_are_still_copied() {
    // two program headers: a good one, then one whose address is too low
    let mut v = elf64(0x1000000, 0x1000000);
    v.resize(64 + 2 * 56 + 16, 0);
    v[56..58].copy_from_slice(&2u16.to_le_bytes());
    let ph = 64 + 56;
    v[ph..ph + 4].copy_from_slice(&1u32.to_le_bytes());
    v[ph + 8..ph + 16].copy_from_slice(&64u64.to_le_bytes());
    v[ph + 24..ph + 32].copy_from_slice(&0x1000u64.to_le_bytes());
    v[ph + 32..ph + 40].copy_from_slice(&8u64.to_le_bytes());
    let (segs, r) = load_elf(&MemoryRegion::from_slice(&v));
    assert_eq!(r, Err(ParseError::InvalidProgramHeaderAddress));
    assert_eq!(segs, vec![LoadSegment { paddr: 0x1000000, offset: 120, size: 16, mem_size: 24 }]);
}

#[test]
fn segment_memory_past_file_is_zero() {
    let mut v = elf64(0x1000000, 0x1000000);
    for b in &mut v[120..136] {
        *b = 0xAB;
    }
    let img = MemoryRegion::from_slice(&v);
    let (segs, r) = load_elf(&img);
    assert!(r.is_ok());
    let mem = load_segment(&img, &segs[0]);
    assert_eq!(mem.len(), 24);
    assert_eq!(mem.read_u8(0), 0xAB);
    assert_eq!(mem.read_u8(15), 0xAB);
    assert_eq!(mem.read_u64(16), 0);
    let short = LoadSegment { paddr: 0x200000, offset: 120, size: 16, mem_size: 4 };
    assert_eq!(load_segment(&img, &short).len(), 16);
}
