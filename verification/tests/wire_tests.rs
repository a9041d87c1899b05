use cleanmeter::wire::{copy_array, i16_from_le, i32_from_le, push_bytes, push_i16_le, read_u32_at, read_u64_at, u32_from_le};

#[test]
fn i16_decoding_matches_std() {
    for v in [i16::MIN, -300, -1, 0, 1, 255, 256, 4660, i16::MAX] {
        let b = v.to_le_bytes();
        assert_eq!(i16_from_le(b[0], b[1]), v);
    }
}

#[test]
fn i32_and_u32_decoding_matches_std() {
    for v in [i32::MIN, -70000, -1, 0, 1, 0x1234_5678, i32::MAX] {
        let b = v.to_le_bytes();
        assert_eq!(i32_from_le(b[0], b[1], b[2], b[3]), v);
    }
    for v in [0u32, 1, 0xdead_beef, u32::MAX] {
        let b = v.to_le_bytes();
        assert_eq!(u32_from_le(b[0], b[1], b[2], b[3]), v);
    }
}

#[test]
fn i16_encoding_matches_std() {
    for v in [i16::MIN, -2, -1, 0, 4, 1000, i16::MAX] {
        let mut out = vec![9u8];
        push_i16_le(&mut out, v);
        let b = v.to_le_bytes();
        assert_eq!(out, vec![9, b[0], b[1]]);
    }
}

#[test]
fn reads_at_offsets() {
    let mut mem = vec![0xaa, 0xbb];
    mem.extend_from_slice(&0x0102_0304u32.to_le_bytes());
    mem.extend_from_slice(&0x1122_3344_5566_7788u64.to_le_bytes());
    assert_eq!(read_u32_at(&mem, 2), 0x0102_0304);
    assert_eq!(read_u64_at(&mem, 6), 0x1122_3344_5566_7788);
    let a: [u8; 3] = copy_array::<3>(&mem, 1);
    assert_eq!(a, [0xbb, 0x04, 0x03]);
    let mut out = vec![1u8];
    push_bytes(&mut out, &[2, 3]);
    assert_eq!(out, vec![1, 2, 3]);
}
