use vstd::prelude::*;

verus! {

/// Why a secret or a share was rejected.
#[derive(Debug, Clone, Copy, PartialEq, Eq, Structural)]
pub enum ShareError {
    /// A share's stored checksum differs from the CRC-32 of its payload.
    InvalidChecksum,
    /// A share is shorter than its four-byte checksum trailer.
    ShareTooShort,
    /// A secret or a share has no bytes at all.
    EmptyInput,
}

impl ShareError {
    /// A human-readable description of the error.
    pub fn message(&self) -> (r: String)
        ensures
            r@ == match self {
                ShareError::InvalidChecksum => "Invalid checksum - share data may be corrupted"@,
                ShareError::ShareTooShort => "Share is too short to contain valid data"@,
                ShareError::EmptyInput => "Input is empty - cannot process empty secrets or shares"@,
            },
    {
        match self {
            ShareError::InvalidChecksum => String::from_str(
                "Invalid checksum - share data may be corrupted",
            ),
            ShareError::ShareTooShort => String::from_str("Share is too short to contain valid data"),
            ShareError::EmptyInput => String::from_str(
                "Input is empty - cannot process empty secrets or shares",
            ),
        }
    }
}

} // verus!
