use pappap_core::codec::{push_u64_be, push_bytes_field, read_u64_be, read_bytes_field};

#[test]
fn u64_be_layout_is_big_endian() {
    let mut out = Vec::new();
    push_u64_be(&mut out, 0x0123456789abcdef);
    assert_eq!(out, vec![0x01, 0x23, 0x45, 0x67, 0x89, 0xab, 0xcd, 0xef]);
}

#[test]
fn u64_roundtrip() {
    for x in [0u64, 1, 7, 0xff, 0x0123456789abcdef, u64::MAX] {
        let mut out = Vec::new();
        push_u64_be(&mut out, x);
        let (y, p) = read_u64_be(&out, 0).unwrap();
        assert_eq!(y, x);
        assert_eq!(p, 8);
    }
}

#[test]
fn u64_read_fails_when_short() {
    let out = vec![1u8, 2, 3];
    assert!(read_u64_be(&out, 0).is_none());
}

#[test]
fn bytes_field_roundtrip() {
    let payload = vec![9u8, 8, 7, 6];
    let mut out = Vec::new();
    push_bytes_field(&mut out, &payload);
    assert_eq!(out.len(), 12);
    assert_eq!(&out[0..8], &[0, 0, 0, 0, 0, 0, 0, 4]);
    let (v, p) = read_bytes_field(&out, 0).unwrap();
    assert_eq!(v, payload);
    assert_eq!(p, 12);
}

#[test]
fn bytes_field_read_fails_on_truncation() {
    let payload = vec![9u8, 8, 7, 6];
    let mut out = Vec::new();
    push_bytes_field(&mut out, &payload);
    out.pop();
    assert!(read_bytes_field(&out, 0).is_none());
}
