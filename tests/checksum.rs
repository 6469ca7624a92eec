use bm_client::checksum::{double_sha512_checksum_bytes, frame_checksum, sha512_checksum, sha512_hash};

#[test]
fn test_sha512_hash() {
    let input: Vec<u8> = vec![104, 101, 108, 108, 111]; // hello
    let output1 = sha512_hash(&input[..]);
    let output2 = sha512_hash(&output1[..]);

    let expected1 = [
        0x9b, 0x71, 0xd2, 0x24, 0xbd, 0x62, 0xf3, 0x78, 0x5d, 0x96, 0xd4, 0x6a, 0xd3, 0xea, 0x3d, 0x73,
        0x31, 0x9b, 0xfb, 0xc2, 0x89, 0x0c, 0xaa, 0xda, 0xe2, 0xdf, 0xf7, 0x25, 0x19, 0x67, 0x3c, 0xa7,
        0x23, 0x23, 0xc3, 0xd9, 0x9b, 0xa5, 0xc1, 0x1d, 0x7c, 0x7a, 0xcc, 0x6e, 0x14, 0xb8, 0xc5, 0xda,
        0x0c, 0x46, 0x63, 0x47, 0x5c, 0x2e, 0x5c, 0x3a, 0xde, 0xf4, 0x6f, 0x73, 0xbc, 0xde, 0xc0, 0x43,
    ];

    assert_eq!(&expected1[..], &output1[..]);

    let expected2 = [
        0x05, 0x92, 0xa1, 0x05, 0x84, 0xff, 0xab, 0xf9, 0x65, 0x39, 0xf3, 0xd7, 0x80, 0xd7, 0x76, 0x82,
        0x8c, 0x67, 0xda, 0x1a, 0xb5, 0xb1, 0x69, 0xe9, 0xe8, 0xae, 0xd8, 0x38, 0xaa, 0xec, 0xc9, 0xed,
        0x36, 0xd4, 0x9f, 0xf1, 0x42, 0x3c, 0x55, 0xf0, 0x19, 0xe0, 0x50, 0xc6, 0x6c, 0x63, 0x24, 0xf5,
        0x35, 0x88, 0xbe, 0x88, 0x89, 0x4f, 0xef, 0x4d, 0xcf, 0xfd, 0xb7, 0x4b, 0x98, 0xe2, 0xb2, 0x00,
    ];

    assert_eq!(&expected2[..], &output2[..]);
}

#[test]
fn test_sha512_checksum() {
    let bytes: Vec<u8> = vec![];
    let checksum = sha512_checksum(&bytes[..]);
    assert_eq!(3481526581, checksum);
}

#[test]
fn frame_checksum_of_empty_payload() {
    assert_eq!(frame_checksum(&[]), [0xcf, 0x83, 0xe1, 0x35]);
}

#[test]
fn frame_checksum_of_hello() {
    assert_eq!(frame_checksum(&[104, 101, 108, 108, 111]), [0x9b, 0x71, 0xd2, 0x24]);
}

#[test]
fn frame_checksum_is_repeatable() {
    let payload: Vec<u8> = (0..200u32).map(|i| (i * 7) as u8).collect();
    assert_eq!(frame_checksum(&payload), frame_checksum(&payload));
}

#[test]
fn frame_checksum_changes_with_any_flipped_bit() {
    let payload: Vec<u8> = (0..64u32).map(|i| (i * 13 + 5) as u8).collect();
    let unaltered = frame_checksum(&payload);
    for i in 0..payload.len() {
        for bit in 0..8 {
            let mut altered = payload.clone();
            altered[i] ^= 1 << bit;
            assert_ne!(frame_checksum(&altered), unaltered);
        }
    }
}

#[test]
fn double_checksum_is_digest_of_digest() {
    let input: Vec<u8> = vec![104, 101, 108, 108, 111];
    let inner = sha512_hash(&input);
    let outer = sha512_hash(&inner);
    assert_eq!(&double_sha512_checksum_bytes(&input)[..], &outer[0..4]);
    assert_eq!(&outer[0..4], &[0x05, 0x92, 0xa1, 0x05]);
}
