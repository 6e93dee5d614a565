use qaul::{encode_frame, frame_len, parse_frame};

#[test]
fn encode_frame_prefixes_big_endian_length() {
    assert_eq!(encode_frame(&[7, 8, 9]), vec![0, 0, 0, 0, 0, 0, 0, 3, 7, 8, 9]);
    assert_eq!(encode_frame(&[]), vec![0; 8]);
    let big = vec![1u8; 0x0102];
    let f = encode_frame(&big);
    assert_eq!(&f[..8], &[0, 0, 0, 0, 0, 0, 1, 2]);
    assert_eq!(f.len(), 8 + 0x0102);
}

#[test]
fn frame_len_reads_big_endian() {
    assert_eq!(frame_len(&[0, 0, 0, 0, 0, 0, 1, 2]), 0x0102);
    assert_eq!(frame_len(&[1, 2, 3, 4, 5, 6, 7, 8, 99]), 0x0102_0304_0506_0708);
}

#[test]
fn parse_frame_roundtrip_with_trailing_bytes() {
    let mut bytes = encode_frame(b"hello");
    bytes.extend_from_slice(&[1, 2, 3]);
    assert_eq!(parse_frame(&bytes), Some((b"hello".to_vec(), 13)));
}

#[test]
fn parse_frame_needs_the_whole_frame() {
    assert_eq!(parse_frame(&[0, 0, 0]), None);
    assert_eq!(parse_frame(&[0, 0, 0, 0, 0, 0, 0, 4, 1, 2, 3]), None);
    assert_eq!(parse_frame(&[0, 0, 0, 0, 0, 0, 0, 0]), Some((vec![], 8)));
}
