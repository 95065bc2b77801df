use krabs::fs::blkdev::{read_plan, BIOError, BlockDevice, DiskRead};
use krabs::fs::fat32::dir::DirError;
use krabs::fs::fat32::file::FileError;
use krabs::fs::fat32::Volume;
use krabs::fs::gpt::{Partition, GPT};
use krabs::loader::config::Config;
use krabs::loader::load_items;
use krabs::mem::MemoryRegion;

/// A FAT32 volume of four 512-byte sectors: boot sector, one FAT, the root directory
/// in cluster 2 and the file HELLO.TXT ("hello") in cluster 3.
fn volume_bytes() -> Vec<u8> {
    let mut v = vec![0u8; 2048];
    v[0x0B..0x0D].copy_from_slice(&512u16.to_le_bytes());
    v[0x0D] = 1;
    v[0x0E..0x10].copy_from_slice(&1u16.to_le_bytes());
    v[0x10] = 1;
    v[0x20..0x24].copy_from_slice(&4u32.to_le_bytes());
    v[0x24..0x28].copy_from_slice(&1u32.to_le_bytes());
    v[0x2C..0x30].copy_from_slice(&2u32.to_le_bytes());
    // FAT: clusters 2 and 3 end their chains
    v[512 + 8..512 + 12].copy_from_slice(&0x0FFF_FFFFu32.to_le_bytes());
    v[512 + 12..512 + 16].copy_from_slice(&0x0FFF_FFFFu32.to_le_bytes());
    // root directory
    let e = 1024;
    v[e..e + 11].copy_from_slice(b"HELLO   TXT");
    v[e + 0x0B] = 0x20;
    v[e + 0x1A..e + 0x1C].copy_from_slice(&3u16.to_le_bytes());
    v[e + 0x1C..e + 0x20].copy_from_slice(&5u32.to_le_bytes());
    v[1536..1541].copy_from_slice(b"hello");
    v
}

#[test]
fn open_and_read_file() {
    let disk = MemoryRegion::from_slice(&volume_bytes());
    let vol = Volume::new(&disk);
    assert_eq!(vol.bpb.byte_per_sector, 512);
    assert_eq!(vol.bpb.root_cluster, 2);
    let root = vol.root_dir();
    let f = root.open_file("hello.txt").unwrap();
    assert_eq!(f.len(), 5);
    let mut buf = [0u8; 8];
    assert_eq!(f.read(&mut buf), Ok(5));
    assert_eq!(&buf[..5], b"hello");
    let mut small = [0u8; 2];
    assert_eq!(f.read(&mut small), Err(FileError::BufTooSmall));
}

#[test]
fn missing_and_invalid_names() {
    let disk = MemoryRegion::from_slice(&volume_bytes());
    let vol = Volume::new(&disk);
    let root = vol.root_dir();
    assert!(matches!(root.open_file("nope.txt"), Err(DirError::NoMatchFile)));
    assert!(matches!(root.find_entry("a*b"), Err(DirError::InvalidName)));
    assert!(matches!(root.find_entry("nope.txt"), Err(DirError::NoMatch)));
    assert!(matches!(root.cd("hello.txt"), Ok(_)));
    assert!(matches!(root.cd("sub"), Err(DirError::NoMatchDir)));
}

#[test]
fn load_kernel_from_volume() {
    let disk = MemoryRegion::from_slice(&volume_bytes());
    let vol = Volume::new(&disk);
    let root = vol.root_dir();
    let config = Config::new("main.kernel hello.txt\nmain.cmdlin quiet\n").unwrap();
    let mut zp = MemoryRegion::new(0x7C00, 4096);
    let items = load_items(&root, &config, &mut zp).unwrap();
    assert_eq!(items.kernel_size, 5);
    assert_eq!(items.kernel.read_u8(4), b'o');
    assert!(items.initrd.is_none());
    assert_eq!(items.cmdline.unwrap().read_u8(5), 0);
    assert_eq!(zp.read_u32(0x100), 5);
    assert_eq!(zp.read_u32(0x21C), 0);
}

#[test]
fn block_device_reads() {
    let disk = MemoryRegion::from_slice(&[1, 2, 3, 4, 5, 6]);
    let mut buf = [0u8; 3];
    assert_eq!(disk.read(&mut buf, 2), Ok(()));
    assert_eq!(buf, [3, 4, 5]);
    assert_eq!(disk.read(&mut buf, 4), Err(BIOError::IOError));
}

#[test]
fn read_plan_splits_transfers() {
    let plan = read_plan(9000, 100);
    assert_eq!(plan.len(), 2);
    assert_eq!(plan[0], DiskRead { start_lba: 0, sectors: 16, sector_offset: 100, buff_offset: 0, n_bytes: 8092 });
    assert_eq!(plan[1], DiskRead { start_lba: 16, sectors: 2, sector_offset: 0, buff_offset: 8092, n_bytes: 908 });
}

#[test]
fn gpt_finds_esp() {
    let mut d = vec![0u8; 2304];
    let esp: [u8; 16] = [0x28, 0x73, 0x2A, 0xC1, 0x1F, 0xF8, 0xD2, 0x11, 0xBA, 0x4B, 0x00, 0xA0, 0xC9, 0x3E, 0xC9, 0x3B];
    let e = 1024 + 128;
    d[e..e + 16].copy_from_slice(&esp);
    d[e + 32..e + 40].copy_from_slice(&4096u64.to_le_bytes());
    d[e + 40..e + 48].copy_from_slice(&106495u64.to_le_bytes());
    let gpt = GPT::new(&MemoryRegion::from_slice(&d));
    assert_eq!(gpt.get_efi_system_partition(), Some(Partition { start_lba: 4096, length: 102400 }));
    let none = GPT::new(&MemoryRegion::from_slice(&vec![0u8; 2304]));
    assert_eq!(none.get_efi_system_partition(), None);
}

#[test]
fn forbidden_names_refused_for_any_sector_size() {
    let disk = MemoryRegion::from_slice(&volume_bytes());
    let vol = Volume::new(&disk);
    let mut root = vol.root_dir();
    root.bpb.byte_per_sector = 4096;
    assert!(matches!(root.find_entry("a:b"), Err(DirError::InvalidName)));
    assert!(matches!(root.cd("x|y"), Err(DirError::NoMatchDir)));
    assert!(matches!(root.open_file("<k>"), Err(DirError::NoMatchFile)));
}

/// A volume of five sectors whose file BIG.TXT (600 bytes) spans clusters 3 and 4; the
/// FAT entry of cluster 3 has reserved top bits set.
fn chained_volume() -> Vec<u8> {
    let mut v = volume_bytes();
    v.resize(2560, 0);
    v[0x20..0x24].copy_from_slice(&5u32.to_le_bytes());
    v[512 + 12..512 + 16].copy_from_slice(&0xF000_0004u32.to_le_bytes());
    v[512 + 16..512 + 20].copy_from_slice(&0x0FFF_FFFFu32.to_le_bytes());
    let e = 1024;
    v[e..e + 11].copy_from_slice(b"BIG     TXT");
    v[e + 0x1C..e + 0x20].copy_from_slice(&600u32.to_le_bytes());
    for b in &mut v[1536..2048] {
        *b = b'a';
    }
    for b in &mut v[2048..2136] {
        *b = b'b';
    }
    v
}

#[test]
fn fat_entry_reserved_bits_are_ignored() {
    let disk = MemoryRegion::from_slice(&chained_volume());
    let vol = Volume::new(&disk);
    let f = vol.root_dir().open_file("big.txt").unwrap();
    let mut buf = vec![0u8; 600];
    assert_eq!(f.read(&mut buf), Ok(600));
    assert!(buf[..512].iter().all(|&c| c == b'a'));
    assert!(buf[512..].iter().all(|&c| c == b'b'));
}
