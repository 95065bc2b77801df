use krabs::dev::{
    copy_block, copy_block_status, load_images, read_image, read_to_trackbuf, Dap, DiskRecord,
    ImageChunk, LbaSearch, LbaStep,
};

#[test]
fn dap_new_sets_size() {
    let d = Dap::new(4, 0x1234, 99);
    assert_eq!(d.size, 0x10);
    assert_eq!(d.zero, 0);
    assert_eq!(d.sectors, 4);
    assert_eq!(d.buffer, 0x1234);
    assert_eq!(d.startlba, 99);
}

#[test]
fn hd_status_checks_high_byte() {
    assert_eq!(Dap::hd_status(0x0000), Ok(()));
    assert_eq!(Dap::hd_status(0x00FF), Ok(()));
    assert_eq!(Dap::hd_status(0x0100), Err("X"));
}

#[test]
fn trackbuf_packet() {
    let d = read_to_trackbuf(16, 2048);
    assert_eq!(d.buffer, 0xD000 | (0x07C0 << 16));
    assert_eq!(d.buffer, 0x07C0_D000);
    assert_eq!(d.sectors, 16);
    assert_eq!(d.startlba, 2048);
}

#[test]
fn read_image_in_chunks_of_sixteen() {
    let plan = read_image(40, 0x1000, 100);
    assert_eq!(
        plan,
        vec![
            ImageChunk { sectors: 16, lba: 100, dst: 0x1000 },
            ImageChunk { sectors: 16, lba: 116, dst: 0x1000 + 8192 },
            ImageChunk { sectors: 8, lba: 132, dst: 0x1000 + 16384 },
        ]
    );
    assert!(read_image(0, 0x1000, 100).is_empty());
    assert_eq!(read_image(16, 0, 0).len(), 1);
}

#[test]
fn load_images_needs_stage3() {
    assert_eq!(load_images(10, 0, 5).unwrap_err(), "stage3 is not found");
    let (s3, s4) = load_images(10, 3, 2).unwrap();
    assert_eq!(s3, vec![ImageChunk { sectors: 3, lba: 10, dst: 0xDC00 }]);
    assert_eq!(s4, vec![ImageChunk { sectors: 2, lba: 13, dst: 0x30000 }]);
    let (_, s4) = load_images(10, 3, 0).unwrap();
    assert!(s4.is_empty());
}

#[test]
fn copy_block_descriptors() {
    let gdt = copy_block(0x0001_2345, 0x0350_0000);
    assert_eq!(gdt[0], 0);
    assert_eq!(gdt[1], 0);
    assert_eq!(gdt[2], 0x00CF_9201_2345_FFFF);
    assert_eq!(gdt[3], 0x03CF_9250_0000_FFFF);
    assert_eq!(gdt[4], 0);
    assert_eq!(copy_block_status(0x0000), Ok(()));
    assert_eq!(copy_block_status(0x0200), Err("Memory transfer error!"));
}

fn sector(entries: &[(u8, u8, u32)]) -> Vec<u8> {
    let mut s = vec![0u8; 512];
    for (k, &(boot, ptype, lba)) in entries.iter().enumerate() {
        let at = 446 + 16 * k;
        s[at] = boot;
        s[at + 4] = ptype;
        s[at + 8..at + 12].copy_from_slice(&lba.to_le_bytes());
    }
    s[510] = 0x55;
    s[511] = 0xAA;
    s
}

#[test]
fn record_from_bytes() {
    let s = sector(&[(0, 0x83, 7), (0x80, 0x0c, 2048)]);
    let r = DiskRecord::from_bytes(&s);
    assert_eq!(r.sign, 0xAA55);
    assert_eq!(r.table[1].boot, 0x80);
    assert_eq!(r.table[1].ptype, 0x0c);
    assert_eq!(r.table[1].start_lba, 2048);
    assert_eq!(r.table[0].start_lba, 7);
}

#[test]
fn boot_partition_in_mbr() {
    let r = DiskRecord::from_bytes(&sector(&[(0, 0x83, 7), (0x80, 0x0c, 2048)]));
    assert!(matches!(r.get_lba(), LbaStep::Found(2048)));
}

#[test]
fn no_extended_partition() {
    let r = DiskRecord::from_bytes(&sector(&[(0, 0x83, 7), (0, 0x0c, 2048)]));
    assert!(matches!(r.get_lba(), LbaStep::Failed("Cannot find boot partition")));
    // an extended entry in the first slot is not followed
    let r = DiskRecord::from_bytes(&sector(&[(0, 0x05, 7)]));
    assert!(matches!(r.get_lba(), LbaStep::Failed("Cannot find boot partition")));
}

#[test]
fn walk_extended_chain() {
    let mbr = DiskRecord::from_bytes(&sector(&[(0, 0x83, 7), (0, 0x0f, 1000)]));
    let s = match mbr.get_lba() {
        LbaStep::Read(lba, s) => {
            assert_eq!(lba, 1000);
            assert_eq!(s.ebr_base, 1000);
            assert_eq!(s.records, 1);
            s
        }
        _ => panic!("expected a read"),
    };
    // first extended record: no boot entry, link 50 sectors past the extended base
    let ebr1 = DiskRecord::from_bytes(&sector(&[(0, 0x83, 63), (0, 0x05, 50)]));
    let s = match ebr1.read_done(0, 1000, s) {
        LbaStep::Read(lba, s2) => {
            assert_eq!(lba, 1050);
            assert_eq!(s2.records, 2);
            assert_eq!(s2.ebr_base, 1000);
            s2
        }
        _ => panic!("expected a read"),
    };
    // second extended record holds the boot partition, relative to its own sector
    let ebr2 = DiskRecord::from_bytes(&sector(&[(0x80, 0x83, 63)]));
    assert!(matches!(ebr2.read_done(0, 1050, s), LbaStep::Found(1113)));
    // a failed read
    assert!(matches!(ebr2.read_done(0x0100, 1050, s), LbaStep::Failed("I/O error")));
}

#[test]
fn too_many_records() {
    let r = DiskRecord::from_bytes(&sector(&[(0, 0x83, 7), (0, 0x05, 10)]));
    let s = LbaSearch { records: 34, ebr_base: 0 };
    assert!(matches!(r.next_record(s), LbaStep::Failed("Too many disk record")));
    let s = LbaSearch { records: 33, ebr_base: 5 };
    assert!(matches!(r.next_record(s), LbaStep::Read(15, _)));
}

#[test]
fn record_loader_places_three_images() {
    let (s3, k, rd) = DiskRecord::load_images(100, 10, 20, 3);
    assert_eq!(
        s3,
        vec![
            ImageChunk { sectors: 8, lba: 100, dst: 0xDC00 },
            ImageChunk { sectors: 2, lba: 108, dst: 0xDC00 + 4096 },
        ]
    );
    assert_eq!(k.len(), 3);
    assert_eq!(k[0], ImageChunk { sectors: 8, lba: 110, dst: 0x0060_0000 });
    assert_eq!(k[2], ImageChunk { sectors: 4, lba: 126, dst: 0x0060_0000 + 8192 });
    assert_eq!(rd, vec![ImageChunk { sectors: 3, lba: 130, dst: 0x0090_0000 }]);
    // with no kernel, the initrd follows the boot partition's first sector directly
    let (_, k, rd) = DiskRecord::load_images(100, 10, 0, 3);
    assert!(k.is_empty());
    assert_eq!(rd, vec![ImageChunk { sectors: 3, lba: 100, dst: 0x0090_0000 }]);
    assert!(DiskRecord::read_image(0, 0x1000, 5).is_empty());
}
