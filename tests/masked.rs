use xplit::{encode, recover_secret, split_with_mask, ShareError};

#[test]
fn split_with_mask_gives_masked_and_mask_shares() {
    let shares = split_with_mask(&[1, 2, 3], &[0xff, 0x00, 0x10]).expect("split should succeed");
    assert_eq!(shares.share1, encode(&[0xfe, 0x02, 0x13]));
    assert_eq!(shares.share2, encode(&[0xff, 0x00, 0x10]));
    assert_eq!(recover_secret(&shares.share1, &shares.share2), Ok(vec![1, 2, 3]));
}

#[test]
fn split_with_zero_mask_keeps_secret_in_first_share() {
    let shares = split_with_mask(b"abc", &[0, 0, 0]).expect("split should succeed");
    assert_eq!(&shares.share1[..3], b"abc");
    assert_eq!(&shares.share2[..3], &[0, 0, 0]);
}

#[test]
fn split_with_mask_rejects_empty_secret() {
    assert!(matches!(split_with_mask(&[], &[]), Err(ShareError::EmptyInput)));
}

#[test]
fn payloads_of_unequal_length_combine_over_shorter() {
    let a = encode(&[1, 2, 3]);
    let b = encode(&[1]);
    assert_eq!(recover_secret(&a, &b), Ok(vec![0]));
    assert_eq!(recover_secret(&b, &a), Ok(vec![0]));
}

#[test]
fn shares_with_empty_payloads_recover_empty_secret() {
    assert_eq!(recover_secret(&encode(&[]), &encode(&[])), Ok(vec![]));
}
