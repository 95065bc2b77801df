use krabs::mem::MemoryRegion;

#[test]
fn new_region_is_zeroed() {
    let r = MemoryRegion::new(0x7C00, 16);
    assert_eq!(r.len(), 16);
    for i in 0..16 {
        assert_eq!(r.read_u8(i), 0);
    }
}

#[test]
fn read_after_write_u16_u32_u64() {
    let mut r = MemoryRegion::new(0, 32);
    r.write_u16(0, 0xBEEF);
    r.write_u32(4, 0xDEAD_BEEF);
    r.write_u64(8, 0x0123_4567_89AB_CDEF);
    assert_eq!(r.read_u16(0), 0xBEEF);
    assert_eq!(r.read_u32(4), 0xDEAD_BEEF);
    assert_eq!(r.read_u64(8), 0x0123_4567_89AB_CDEF);
    // little-endian byte order
    assert_eq!(r.read_u8(0), 0xEF);
    assert_eq!(r.read_u8(1), 0xBE);
    assert_eq!(r.read_u8(8), 0xEF);
    assert_eq!(r.read_u8(15), 0x01);
    // bytes that no write covered stay zero
    assert_eq!(r.read_u16(2), 0);
    assert_eq!(r.read_u64(16), 0);
}

#[test]
fn write_leaves_neighbours_alone() {
    let mut r = MemoryRegion::from_slice(&[1, 2, 3, 4, 5, 6, 7, 8]);
    r.write_u16(2, 0xAAAA);
    assert_eq!(r.read_u8(1), 2);
    assert_eq!(r.read_u8(4), 5);
    r.write_u8(7, 9);
    assert_eq!(r.read_u32(4), u32::from_le_bytes([5, 6, 7, 9]));
}

#[test]
fn from_slice_copies() {
    let r = MemoryRegion::from_slice(&[0x34, 0x12, 0x78, 0x56]);
    assert_eq!(r.len(), 4);
    assert_eq!(r.read_u16(0), 0x1234);
    assert_eq!(r.read_u32(0), 0x5678_1234);
}
