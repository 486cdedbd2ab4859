use xplit::{append_checksum, check_share, encode, verify_and_extract, ShareError};

#[test]
fn encode_appends_big_endian_crc32() {
    let share = encode(b"123456789");
    let mut expected = b"123456789".to_vec();
    expected.extend_from_slice(&[0xcb, 0xf4, 0x39, 0x26]);
    assert_eq!(share, expected);
}

#[test]
fn encode_of_empty_payload_is_zero_trailer() {
    assert_eq!(encode(&[]), vec![0, 0, 0, 0]);
    assert_eq!(verify_and_extract(&[0, 0, 0, 0]), Ok(vec![]));
}

#[test]
fn encode_matches_crc32fast() {
    let payload = b"Hello, World!";
    let mut expected = payload.to_vec();
    expected.extend_from_slice(&crc32fast::hash(payload).to_be_bytes());
    assert_eq!(encode(payload), expected);
}

#[test]
fn append_checksum_is_big_endian() {
    assert_eq!(append_checksum(&[7, 8], 0x0102_0304), vec![7, 8, 1, 2, 3, 4]);
    assert_eq!(append_checksum(&[], 0xdead_beef), vec![0xde, 0xad, 0xbe, 0xef]);
}

#[test]
fn check_share_compares_trailer_with_given_crc() {
    let share = [9u8, 0, 0, 0, 5];
    assert_eq!(check_share(&share, 5), Ok(vec![9]));
    assert_eq!(check_share(&share, 6), Err(ShareError::InvalidChecksum));
    assert_eq!(check_share(&share, 0x0500_0000), Err(ShareError::InvalidChecksum));
    assert_eq!(check_share(&[], 0), Err(ShareError::EmptyInput));
    assert_eq!(check_share(&[1, 2, 3], 0), Err(ShareError::ShareTooShort));
}

#[test]
fn verify_and_extract_round_trips_encode() {
    let payload = b"some payload bytes".to_vec();
    assert_eq!(verify_and_extract(&encode(&payload)), Ok(payload));
}

#[test]
fn verify_and_extract_errors() {
    assert_eq!(verify_and_extract(&[]), Err(ShareError::EmptyInput));
    assert_eq!(verify_and_extract(&[1]), Err(ShareError::ShareTooShort));
    assert_eq!(verify_and_extract(&[1, 2, 3]), Err(ShareError::ShareTooShort));
    assert_eq!(verify_and_extract(&[1, 2, 3, 4]), Err(ShareError::InvalidChecksum));
    let mut share = encode(b"abc");
    share[5] ^= 0x80;
    assert_eq!(verify_and_extract(&share), Err(ShareError::InvalidChecksum));
}

#[test]
fn error_messages() {
    assert_eq!(
        ShareError::InvalidChecksum.message(),
        "Invalid checksum - share data may be corrupted"
    );
    assert_eq!(ShareError::ShareTooShort.message(), "Share is too short to contain valid data");
    assert_eq!(
        ShareError::EmptyInput.message(),
        "Input is empty - cannot process empty secrets or shares"
    );
}
