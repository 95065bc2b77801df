use krabs::host::{
    diskimg_check, stage_path, write_into_disk, Builds, DiskWrite, GptPart, SomeError, WriteData,
};

fn builds(e: [bool; 4]) -> Builds {
    Builds::new(b"/work/target", &e)
}

#[test]
fn stage_paths() {
    assert_eq!(
        stage_path(b"/work/target", "stage_2nd"),
        b"/work/target/stage_2nd/i586-stage_2nd/release/stage_2nd.bin".to_vec()
    );
    assert_eq!(stage_path(b"t/", "s"), b"t/s/i586-s/release/s.bin".to_vec());
    assert_eq!(stage_path(b"", "s"), b"s/i586-s/release/s.bin".to_vec());
    let b = builds([true, false, true, false]);
    assert_eq!(b.stage_1st, Some(stage_path(b"/work/target", "stage_1st")));
    assert_eq!(b.stage_2nd, None);
    assert!(b.stage_3rd.is_some());
}

#[test]
fn check_builds() {
    assert_eq!(builds([true, true, false, false]).check(2), Ok(()));
    assert_eq!(builds([true, true, false, false]).check(3), Err(SomeError::SomeBuildsFailed));
    assert_eq!(builds([false, false, false, false]).check(0), Ok(()));
    assert_eq!(builds([true, true, true, true]).check(4), Ok(()));
    assert_eq!(builds([true, true, true, true]).check(5), Err(SomeError::InvalidBuildNumber));
    assert_eq!(builds([false, true, true, true]).check(5), Err(SomeError::InvalidBuildNumber));
}

fn part(guid: &str, first: u64, last: u64) -> GptPart {
    GptPart { type_guid: guid.as_bytes().to_vec(), first_lba: first, last_lba: last }
}

const BIOS: &str = "21686148-6449-6E6F-744E-656564454649";
const ESP: &str = "C12A7328-F81F-11D2-BA4B-00A0C93EC93B";
const LINUX: &str = "0FC63DAF-8483-4772-8E79-3D69D8477DE4";

#[test]
fn partitions_of_image() {
    let parts = vec![part(BIOS, 2048, 4095), part(ESP, 4096, 106495), part(LINUX, 106496, 204766)];
    assert_eq!(diskimg_check(&parts), Ok((2048, 4095)));
    assert_eq!(diskimg_check(&parts[1..]), Err(SomeError::NoBIOSBootPartition));
    assert_eq!(diskimg_check(&[part(BIOS, 1, 2)]), Err(SomeError::NoEFISystemPartition));
    assert_eq!(diskimg_check(&[]), Err(SomeError::NoBIOSBootPartition));
    // the last BIOS boot partition listed counts
    let two = vec![part(BIOS, 10, 20), part(ESP, 30, 40), part(BIOS, 50, 60)];
    assert_eq!(diskimg_check(&two), Ok((50, 60)));
}

fn w(offset: u64, data: WriteData) -> DiskWrite {
    DiskWrite { offset, data }
}

#[test]
fn disk_layout_all_stages() {
    let b = builds([true, true, true, true]);
    let (writes, r) = write_into_disk(&b, &[400, 1000, 5000, 600], (2048, 4095), 4);
    assert_eq!(r, Ok(()));
    assert_eq!(
        writes,
        vec![
            w(0, WriteData::Stage(1)),
            w(442, WriteData::Le16(2)),
            w(444, WriteData::Le16(2048)),
            w(2048 * 512, WriteData::Stage(2)),
            w(2048 * 512, WriteData::Le16(2050)),
            w(2048 * 512 + 2, WriteData::Le16(10)),
            w(2050 * 512, WriteData::Stage(3)),
            w(2048 * 512 + 4, WriteData::Le16(2)),
            w(2060 * 512, WriteData::Stage(4)),
        ]
    );
}

#[test]
fn disk_layout_errors_and_debug_levels() {
    let b = builds([true, true, true, true]);
    let (writes, r) = write_into_disk(&b, &[447, 1000, 5000, 600], (2048, 4095), 4);
    assert!(writes.is_empty());
    assert_eq!(r, Err(SomeError::Stage1stOverSize));
    let (writes, r) = write_into_disk(&b, &[400, 1000, 5000, 600], (2048, 2049), 4);
    assert_eq!(writes.len(), 1);
    assert_eq!(r, Err(SomeError::Stage2ndOverSize));
    let (writes, r) = write_into_disk(&b, &[400, 1000, 5000, 600], (2048, 2055), 4);
    assert_eq!(writes.len(), 4);
    assert_eq!(r, Err(SomeError::Stage3rdOverSize));
    let (writes, r) = write_into_disk(&b, &[400, 1000, 5000, 600], (2048, 2060), 4);
    assert_eq!(writes.len(), 7);
    assert_eq!(r, Err(SomeError::Stage4thOverSize));
    let (writes, r) = write_into_disk(&b, &[400, 1000, 5000, 600], (2048, 4095), 2);
    assert_eq!(writes.len(), 4);
    assert_eq!(r, Ok(()));
    let (writes, r) = write_into_disk(&b, &[400, 1000, 5000, 600], (2048, 4095), 1);
    assert_eq!(writes.len(), 1);
    assert_eq!(r, Ok(()));
    let only4 = builds([false, false, false, true]);
    let (writes, r) = write_into_disk(&only4, &[0, 0, 0, 512], (100, 200), 4);
    assert_eq!(writes, vec![w(100 * 512 + 4, WriteData::Le16(2)), w(100 * 512, WriteData::Stage(4))]);
    assert_eq!(r, Ok(()));
}
