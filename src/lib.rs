//! Two-share secret splitting: a secret is masked with random bytes so that
//! both shares, and only both, give it back. Every share carries a CRC-32
//! trailer, checked before anything is recovered.
//!
//! CRC-32 detects corruption; it does not authenticate. Whoever can change a
//! share can also search for another payload with the same checksum.

mod codec;
mod engine;
mod error;
mod laws;

pub use codec::{
    append_checksum, be_bytes, be_u32, check_share, crc32_of, encode, encoded, extracted, payload_of,
    lemma_be_round_trip, share_check, stored_checksum, verify_and_extract,
};
pub use engine::{
    is_split_of, recover_secret, recovered, shares_of, split_secret, split_with_mask, xor_seq,
    TwoShares,
};
pub use error::ShareError;
pub use laws::{
    lemma_altered_payload_rejected, lemma_altered_trailer_rejected, lemma_empty_rejected,
    lemma_encode_round_trip, lemma_masking_injective, lemma_masking_onto, lemma_round_trip,
    lemma_short_rejected, lemma_xor_cancel,
};
