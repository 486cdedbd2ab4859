//! Splitting a secret into two shares and recovering it from them.
use crate::codec::{encode, encoded, extracted, verify_and_extract};
use crate::error::ShareError;
use rand::RngCore;
use vstd::prelude::*;

verus! {

/// The two shares made from one secret; both are needed to recover it.
#[derive(Debug)]
pub struct TwoShares {
    /// The secret masked bytewise with random bytes, then its checksum.
    pub share1: Vec<u8>,
    /// The random mask itself, then its checksum.
    pub share2: Vec<u8>,
}

/// Bytewise XOR of two sequences, over the length of the shorter one.
pub open spec fn xor_seq(a: Seq<u8>, b: Seq<u8>) -> Seq<u8> {
    let n = if a.len() <= b.len() { a.len() } else { b.len() };
    Seq::new(n, |i: int| a[i] ^ b[i])
}

/// `share1` and `share2` are the shares of `secret` under `mask`.
pub open spec fn shares_of(secret: Seq<u8>, mask: Seq<u8>, share1: Seq<u8>, share2: Seq<u8>) -> bool {
    &&& mask.len() == secret.len()
    &&& share1 == encoded(xor_seq(secret, mask))
    &&& share2 == encoded(mask)
}

/// `share1` and `share2` are the shares of `secret` under some mask of its length.
pub open spec fn is_split_of(secret: Seq<u8>, share1: Seq<u8>, share2: Seq<u8>) -> bool {
    exists|mask: Seq<u8>| shares_of(secret, mask, share1, share2)
}

/// What recovering from two shares gives: the first failing check, share1's
/// before share2's, or else the XOR of the two payloads. Payloads of unequal
/// length are combined over the shorter one.
pub open spec fn recovered(share1: Seq<u8>, share2: Seq<u8>) -> Result<Seq<u8>, ShareError> {
    match extracted(share1) {
        Err(e) => Err(e),
        Ok(p1) => match extracted(share2) {
            Err(e) => Err(e),
            Ok(p2) => Ok(xor_seq(p1, p2)),
        },
    }
}

/// Relies on `rand::rng` and `RngCore::fill_bytes`: the thread-local
/// generator overwrites the buffer with random bytes and keeps its length.
#[verifier::external_body]
fn fill_random(buf: &mut Vec<u8>)
    ensures
        final(buf)@.len() == old(buf)@.len(),
{
    rand::rng().fill_bytes(buf.as_mut_slice())
}

/// Bytewise XOR of two sequences of one length.
fn xor_bytes(a: &[u8], b: &[u8]) -> (r: Vec<u8>)
    requires
        a@.len() == b@.len(),
    ensures
        r@ == xor_seq(a@, b@),
{
    let mut r: Vec<u8> = Vec::with_capacity(a.len());
    let mut i: usize = 0;
    while i < a.len()
        invariant
            a@.len() == b@.len(),
            i <= a@.len(),
            r@.len() == i,
            forall|j: int| 0 <= j < i ==> r@[j] == a@[j] ^ b@[j],
        decreases a@.len() - i,
    {
        r.push(a[i] ^ b[i]);
        i = i + 1;
    }
    assert(r@ =~= xor_seq(a@, b@));
    r
}

/// Splits `secret` with the given mask: share2 carries the mask, share1 the
/// secret XOR the mask, each followed by its checksum.
pub fn split_with_mask(secret: &[u8], mask: &[u8]) -> (r: Result<TwoShares, ShareError>)
    requires
        mask@.len() == secret@.len(),
    ensures
        secret@.len() == 0 ==> r == Err::<TwoShares, ShareError>(ShareError::EmptyInput),
        secret@.len() > 0 ==> (r matches Ok(p) && shares_of(secret@, mask@, p.share1@, p.share2@)),
{
    if secret.len() == 0 {
        return Err(ShareError::EmptyInput);
    }
    let masked = xor_bytes(secret, mask);
    let share1 = encode(masked.as_slice());
    let share2 = encode(mask);
    Ok(TwoShares { share1, share2 })
}

/// Splits `secret` into two shares under a fresh random mask.
pub fn split_secret(secret: &[u8]) -> (r: Result<TwoShares, ShareError>)
    ensures
        secret@.len() == 0 ==> r == Err::<TwoShares, ShareError>(ShareError::EmptyInput),
        secret@.len() > 0 ==> (r matches Ok(p) && is_split_of(secret@, p.share1@, p.share2@)),
{
    if secret.len() == 0 {
        return Err(ShareError::EmptyInput);
    }
    let mut mask: Vec<u8> = vec![0u8; secret.len()];
    fill_random(&mut mask);
    let r = split_with_mask(secret, mask.as_slice());
    if let Ok(p) = &r {
        assert(shares_of(secret@, mask@, p.share1@, p.share2@));
    }
    r
}

/// Recovers the secret from two shares after verifying both checksums,
/// share1 first; the first failing check is the error returned. Shares made
/// by one split have payloads of one length; payloads of unequal length, from
/// shares made apart, are combined over the shorter one, as `recovered` states.
pub fn recover_secret(share1: &[u8], share2: &[u8]) -> (r: Result<Vec<u8>, ShareError>)
    ensures
        match r {
            Ok(s) => recovered(share1@, share2@) == Ok::<Seq<u8>, ShareError>(s@),
            Err(e) => recovered(share1@, share2@) == Err::<Seq<u8>, ShareError>(e),
        },
{
    let data1 = match verify_and_extract(share1) {
        Ok(d) => d,
        Err(e) => return Err(e),
    };
    let data2 = match verify_and_extract(share2) {
        Ok(d) => d,
        Err(e) => return Err(e),
    };
    let n = if data1.len() <= data2.len() { data1.len() } else { data2.len() };
    let a = vstd::slice::slice_subrange(data1.as_slice(), 0, n);
    let b = vstd::slice::slice_subrange(data2.as_slice(), 0, n);
    let r = xor_bytes(a, b);
    assert(r@ =~= xor_seq(data1@, data2@));
    Ok(r)
}

} // verus!
