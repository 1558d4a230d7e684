use overlay_core::bytes::{read_i32_le, read_u16_le, read_u32_le, read_u64_le};

#[test]
fn u16_is_little_endian() {
    let buf = [0x34u8, 0x12, 0xff];
    assert_eq!(read_u16_le(&buf, 0), 0x1234);
    assert_eq!(read_u16_le(&buf, 1), 0xff12);
}

#[test]
fn u32_is_little_endian() {
    let buf = [0x00u8, 0x78, 0x56, 0x34, 0x12];
    assert_eq!(read_u32_le(&buf, 1), 0x1234_5678);
    assert_eq!(read_u32_le(&[0xff, 0xff, 0xff, 0xff], 0), u32::MAX);
}

#[test]
fn u64_is_little_endian() {
    let buf = [0xefu8, 0xcd, 0xab, 0x89, 0x67, 0x45, 0x23, 0x01];
    assert_eq!(read_u64_le(&buf, 0), 0x0123_4567_89ab_cdef);
    assert_eq!(read_u64_le(&[0xff; 8], 0), u64::MAX);
    assert_eq!(read_u64_le(&[0; 8], 0), 0);
}

#[test]
fn u64_agrees_with_std() {
    let values = [0u64, 1, 0x1_4000_0000, 0x8121_468, u64::MAX - 7, 0x8000_0000_0000_0000];
    for v in values {
        assert_eq!(read_u64_le(&v.to_le_bytes(), 0), v);
    }
}

#[test]
fn i32_is_twos_complement() {
    assert_eq!(read_i32_le(&[0xff, 0xff, 0xff, 0xff], 0), -1);
    assert_eq!(read_i32_le(&[0x00, 0x00, 0x00, 0x80], 0), i32::MIN);
    assert_eq!(read_i32_le(&[0xff, 0xff, 0xff, 0x7f], 0), i32::MAX);
    assert_eq!(read_i32_le(&[0x2a, 0, 0, 0], 0), 42);
    for v in [-2i32, -123_456, 7, 0, 1 << 30] {
        assert_eq!(read_i32_le(&v.to_le_bytes(), 0), v);
    }
}

#[test]
fn reads_at_an_offset() {
    let mut buf = vec![0u8; 24];
    buf[8..16].copy_from_slice(&0xdead_beef_u64.to_le_bytes());
    buf[16..20].copy_from_slice(&(-5i32).to_le_bytes());
    assert_eq!(read_u64_le(&buf, 8), 0xdead_beef);
    assert_eq!(read_i32_le(&buf, 16), -5);
}
