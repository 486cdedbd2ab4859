//! Properties that relate the codec and the engine, proved over their
//! specifications.
use crate::codec::{
    be_bytes, be_u32, crc32_of, encoded, extracted, lemma_be_round_trip, payload_of,
    stored_checksum,
};
use crate::engine::{is_split_of, recovered, shares_of, xor_seq};
use crate::error::ShareError;
use vstd::prelude::*;

verus! {

/// Decoding an encoded payload gives the payload back.
pub proof fn lemma_encode_round_trip(payload: Seq<u8>)
    ensures
        extracted(encoded(payload)) == Ok::<Seq<u8>, ShareError>(payload),
{
    let s = encoded(payload);
    let n = payload.len() as int;
    assert(payload_of(s) =~= payload);
    lemma_be_round_trip(crc32_of(payload));
    assert(s[n + 0] == be_bytes(crc32_of(payload))[0]);
    assert(s[n + 1] == be_bytes(crc32_of(payload))[1]);
    assert(s[n + 2] == be_bytes(crc32_of(payload))[2]);
    assert(s[n + 3] == be_bytes(crc32_of(payload))[3]);
    assert(stored_checksum(s) == crc32_of(payload));
}

/// Masking twice with the same mask gives the original bytes back.
pub proof fn lemma_xor_cancel(secret: Seq<u8>, mask: Seq<u8>)
    requires
        mask.len() == secret.len(),
    ensures
        xor_seq(xor_seq(secret, mask), mask) == secret,
{
    assert forall|i: int| 0 <= i < secret.len() implies #[trigger] xor_seq(
        xor_seq(secret, mask),
        mask,
    )[i] == secret[i] by {
        let (s, m) = (secret[i], mask[i]);
        assert((s ^ m) ^ m == s) by (bit_vector);
    }
    assert(xor_seq(xor_seq(secret, mask), mask) =~= secret);
}

/// Recovering from the two shares of a split gives exactly the secret.
pub proof fn lemma_round_trip(secret: Seq<u8>, share1: Seq<u8>, share2: Seq<u8>)
    requires
        is_split_of(secret, share1, share2),
    ensures
        recovered(share1, share2) == Ok::<Seq<u8>, ShareError>(secret),
{
    let mask = choose|mask: Seq<u8>| shares_of(secret, mask, share1, share2);
    lemma_encode_round_trip(xor_seq(secret, mask));
    lemma_encode_round_trip(mask);
    lemma_xor_cancel(secret, mask);
}

/// An empty share is rejected: an empty share1 with `EmptyInput`; an empty
/// share2 always, and with `EmptyInput` whenever share1 passes its check.
pub proof fn lemma_empty_rejected(share1: Seq<u8>, share2: Seq<u8>)
    ensures
        share1.len() == 0 ==> recovered(share1, share2) == Err::<Seq<u8>, ShareError>(
            ShareError::EmptyInput,
        ),
        share2.len() == 0 ==> recovered(share1, share2) is Err,
        share2.len() == 0 && extracted(share1) is Ok ==> recovered(share1, share2) == Err::<
            Seq<u8>,
            ShareError,
        >(ShareError::EmptyInput),
{
}

/// A share of one to three bytes is rejected: as share1 with `ShareTooShort`;
/// as share2 always, and with `ShareTooShort` whenever share1 passes its check.
pub proof fn lemma_short_rejected(share1: Seq<u8>, share2: Seq<u8>)
    ensures
        0 < share1.len() < 4 ==> recovered(share1, share2) == Err::<Seq<u8>, ShareError>(
            ShareError::ShareTooShort,
        ),
        0 < share2.len() < 4 ==> recovered(share1, share2) is Err,
        0 < share2.len() < 4 && extracted(share1) is Ok ==> recovered(share1, share2) == Err::<
            Seq<u8>,
            ShareError,
        >(ShareError::ShareTooShort),
{
}

/// A valid share whose payload is altered, keeping its trailer, in a way
/// that changes the payload's CRC-32 is rejected with `InvalidChecksum`,
/// whichever of the two positions it takes beside a valid share.
pub proof fn lemma_altered_payload_rejected(share: Seq<u8>, altered: Seq<u8>, other: Seq<u8>)
    requires
        extracted(share) is Ok,
        extracted(other) is Ok,
        altered.len() == share.len(),
        forall|i: int| share.len() - 4 <= i < share.len() ==> altered[i] == share[i],
        crc32_of(payload_of(altered)) != crc32_of(payload_of(share)),
    ensures
        extracted(altered) == Err::<Seq<u8>, ShareError>(ShareError::InvalidChecksum),
        recovered(altered, other) == Err::<Seq<u8>, ShareError>(ShareError::InvalidChecksum),
        recovered(other, altered) == Err::<Seq<u8>, ShareError>(ShareError::InvalidChecksum),
{
    let n = share.len();
    assert(altered[n - 4] == share[n - 4] && altered[n - 3] == share[n - 3]);
    assert(altered[n - 2] == share[n - 2] && altered[n - 1] == share[n - 1]);
    assert(stored_checksum(altered) == stored_checksum(share));
}

/// Two big-endian readings agree only on equal bytes.
proof fn lemma_be_u32_injective(a0: u8, a1: u8, a2: u8, a3: u8, b0: u8, b1: u8, b2: u8, b3: u8)
    requires
        be_u32(a0, a1, a2, a3) == be_u32(b0, b1, b2, b3),
    ensures
        a0 == b0 && a1 == b1 && a2 == b2 && a3 == b3,
{
    assert(a0 == b0 && a1 == b1 && a2 == b2 && a3 == b3) by (bit_vector)
        requires
            ((a0 as u32) << 24u32) | ((a1 as u32) << 16u32) | ((a2 as u32) << 8u32) | (a3 as u32)
                == ((b0 as u32) << 24u32) | ((b1 as u32) << 16u32) | ((b2 as u32) << 8u32) | (
            b3 as u32),
    ;
}

/// A valid share whose checksum trailer is altered, keeping its payload, is
/// rejected with `InvalidChecksum`, whichever of the two positions it takes
/// beside a valid share.
pub proof fn lemma_altered_trailer_rejected(share: Seq<u8>, altered: Seq<u8>, other: Seq<u8>)
    requires
        extracted(share) is Ok,
        extracted(other) is Ok,
        altered.len() == share.len(),
        payload_of(altered) == payload_of(share),
        altered != share,
    ensures
        extracted(altered) == Err::<Seq<u8>, ShareError>(ShareError::InvalidChecksum),
        recovered(altered, other) == Err::<Seq<u8>, ShareError>(ShareError::InvalidChecksum),
        recovered(other, altered) == Err::<Seq<u8>, ShareError>(ShareError::InvalidChecksum),
{
    let n = share.len();
    if stored_checksum(altered) == stored_checksum(share) {
        lemma_be_u32_injective(
            altered[n - 4],
            altered[n - 3],
            altered[n - 2],
            altered[n - 1],
            share[n - 4],
            share[n - 3],
            share[n - 2],
            share[n - 1],
        );
        assert forall|i: int| 0 <= i < n implies altered[i] == share[i] by {
            if i < n - 4 {
                assert(altered[i] == payload_of(altered)[i]);
            }
        }
        assert(altered =~= share);
    }
}

/// Masking a fixed secret is one-to-one on masks of its length, so distinct
/// masks give distinct first shares.
pub proof fn lemma_masking_injective(secret: Seq<u8>, m1: Seq<u8>, m2: Seq<u8>)
    requires
        m1.len() == secret.len(),
        m2.len() == secret.len(),
        xor_seq(secret, m1) == xor_seq(secret, m2),
    ensures
        m1 == m2,
{
    assert forall|i: int| 0 <= i < secret.len() implies m1[i] == m2[i] by {
        let (s, a, b) = (secret[i], m1[i], m2[i]);
        assert(xor_seq(secret, m1)[i] == xor_seq(secret, m2)[i]);
        assert(xor_seq(secret, m1)[i] == s ^ a);
        assert(xor_seq(secret, m2)[i] == s ^ b);
        assert(s ^ a == s ^ b);
        assert(a == b) by (bit_vector)
            requires
                s ^ a == s ^ b,
        ;
    }
    assert(m1 =~= m2);
}

/// Every byte sequence of the secret's length is the masked secret under
/// exactly one mask, namely itself XOR the secret: with a uniform mask the
/// first share is uniform too.
pub proof fn lemma_masking_onto(secret: Seq<u8>, target: Seq<u8>)
    requires
        target.len() == secret.len(),
    ensures
        xor_seq(secret, xor_seq(target, secret)) == target,
        forall|m: Seq<u8>|
            m.len() == secret.len() && #[trigger] xor_seq(secret, m) == target ==> m == xor_seq(
                target,
                secret,
            ),
{
    assert forall|i: int| 0 <= i < secret.len() implies #[trigger] xor_seq(
        secret,
        xor_seq(target, secret),
    )[i] == target[i] by {
        let (s, t) = (secret[i], target[i]);
        assert(s ^ (t ^ s) == t) by (bit_vector);
    }
    assert(xor_seq(secret, xor_seq(target, secret)) =~= target);
    assert forall|m: Seq<u8>|
        m.len() == secret.len() && #[trigger] xor_seq(secret, m) == target implies m == xor_seq(
            target,
            secret,
        ) by {
        lemma_masking_injective(secret, m, xor_seq(target, secret));
    }
}

} // verus!
