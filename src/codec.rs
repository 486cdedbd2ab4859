//! The binary layout of a share: the payload followed by the big-endian
//! CRC-32 (IEEE) of that payload.
use crate::error::ShareError;
use vstd::prelude::*;
use vstd::slice::{slice_subrange, slice_to_vec};

verus! {

/// The CRC-32 (IEEE 802.3) checksum of a byte sequence.
pub uninterp spec fn crc32_of(data: Seq<u8>) -> u32;

/// Relies on `crc32fast::hash`: the standard CRC-32 of the whole slice,
/// which depends on the bytes alone.
#[verifier::external_body]
fn crc32(data: &[u8]) -> (r: u32)
    ensures
        r == crc32_of(data@),
{
    crc32fast::hash(data)
}

/// The four bytes of `x`, most significant first.
pub open spec fn be_bytes(x: u32) -> Seq<u8> {
    seq![(x >> 24u32) as u8, (x >> 16u32) as u8, (x >> 8u32) as u8, x as u8]
}

/// The integer whose big-endian bytes are `b0 b1 b2 b3`.
pub open spec fn be_u32(b0: u8, b1: u8, b2: u8, b3: u8) -> u32 {
    ((b0 as u32) << 24u32) | ((b1 as u32) << 16u32) | ((b2 as u32) << 8u32) | (b3 as u32)
}

/// A share as it is written: the payload, then its checksum.
pub open spec fn encoded(payload: Seq<u8>) -> Seq<u8> {
    payload + be_bytes(crc32_of(payload))
}

/// The data-bearing prefix of a share (all but the last four bytes).
pub open spec fn payload_of(share: Seq<u8>) -> Seq<u8> {
    share.subrange(0, share.len() - 4)
}

/// The checksum that a share carries in its last four bytes.
pub open spec fn stored_checksum(share: Seq<u8>) -> u32 {
    let n = share.len();
    be_u32(share[n - 4], share[n - 3], share[n - 2], share[n - 1])
}

/// What checking `share` gives when `payload_crc` is the checksum computed
/// from its payload.
pub open spec fn share_check(share: Seq<u8>, payload_crc: u32) -> Result<Seq<u8>, ShareError> {
    if share.len() == 0 {
        Err(ShareError::EmptyInput)
    } else if share.len() < 4 {
        Err(ShareError::ShareTooShort)
    } else if payload_crc != stored_checksum(share) {
        Err(ShareError::InvalidChecksum)
    } else {
        Ok(payload_of(share))
    }
}

/// What checking `share` gives: its payload when the trailer matches.
pub open spec fn extracted(share: Seq<u8>) -> Result<Seq<u8>, ShareError> {
    share_check(share, crc32_of(payload_of(share)))
}

/// Reading back the big-endian bytes of `x` gives `x`.
pub proof fn lemma_be_round_trip(x: u32)
    ensures
        be_u32(be_bytes(x)[0], be_bytes(x)[1], be_bytes(x)[2], be_bytes(x)[3]) == x,
{
    let (b0, b1, b2, b3) = ((x >> 24u32) as u8, (x >> 16u32) as u8, (x >> 8u32) as u8, x as u8);
    assert(be_u32(b0, b1, b2, b3) == x) by (bit_vector)
        requires
            b0 == (x >> 24u32) as u8,
            b1 == (x >> 16u32) as u8,
            b2 == (x >> 8u32) as u8,
            b3 == x as u8,
    ;
}

/// Appends the four big-endian bytes of `payload_crc` to a copy of `payload`.
pub fn append_checksum(payload: &[u8], payload_crc: u32) -> (r: Vec<u8>)
    ensures
        r@ == payload@ + be_bytes(payload_crc),
{
    let mut r = slice_to_vec(payload);
    r.push((payload_crc >> 24u32) as u8);
    r.push((payload_crc >> 16u32) as u8);
    r.push((payload_crc >> 8u32) as u8);
    r.push(payload_crc as u8);
    assert(r@ =~= payload@ + be_bytes(payload_crc));
    r
}

/// Encodes a payload as a share by appending its CRC-32, big-endian.
pub fn encode(payload: &[u8]) -> (r: Vec<u8>)
    ensures
        r@ == encoded(payload@),
{
    let c = crc32(payload);
    append_checksum(payload, c)
}

/// Checks `share` against `payload_crc`, the checksum computed from its
/// payload, and returns a copy of the payload when they agree.
pub fn check_share(share: &[u8], payload_crc: u32) -> (r: Result<Vec<u8>, ShareError>)
    ensures
        match r {
            Ok(p) => share_check(share@, payload_crc) == Ok::<Seq<u8>, ShareError>(p@),
            Err(e) => share_check(share@, payload_crc) == Err::<Seq<u8>, ShareError>(e),
        },
{
    let n = share.len();
    if n == 0 {
        return Err(ShareError::EmptyInput);
    }
    if n < 4 {
        return Err(ShareError::ShareTooShort);
    }
    let k = n - 4;
    let (b0, b1, b2, b3) = (share[k], share[k + 1], share[k + 2], share[k + 3]);
    let stored: u32 = ((b0 as u32) << 24u32) | ((b1 as u32) << 16u32) | ((b2 as u32) << 8u32)
        | (b3 as u32);
    if payload_crc != stored {
        return Err(ShareError::InvalidChecksum);
    }
    let payload = slice_to_vec(slice_subrange(share, 0, k));
    Ok(payload)
}

/// Verifies a share's checksum trailer and returns a copy of its payload.
pub fn verify_and_extract(share: &[u8]) -> (r: Result<Vec<u8>, ShareError>)
    ensures
        match r {
            Ok(p) => extracted(share@) == Ok::<Seq<u8>, ShareError>(p@),
            Err(e) => extracted(share@) == Err::<Seq<u8>, ShareError>(e),
        },
{
    let n = share.len();
    if n < 4 {
        return check_share(share, 0);
    }
    let c = crc32(slice_subrange(share, 0, n - 4));
    check_share(share, c)
}

} // verus!
