//! The reasons for which an operation is refused.

use vstd::prelude::*;

verus! {

/// Why an operation was refused. An operation that returns one of these has
/// changed nothing.
#[derive(Clone, Copy, Debug, PartialEq, Eq, Structural)]
pub enum ErrorCode {
    /// Two lists that must pair up item by item differ in length.
    ArrayLengthMismatch,
    /// A list that must name at least one reward is empty.
    EmptyParams,
    /// A balance is smaller than the amount to be taken from it.
    InsufficientBalance,
    /// A claim bundle was issued more than the validity window ago.
    SignatureExpired,
    /// The signature does not belong to the bundle and the signer.
    InvalidSignature,
    /// The signer has no enabled whitelist entry.
    SignerNotInWhitelist,
    /// A fee ratio above 10000 basis points.
    InvalidFeeRatio,
    /// A sum or a balance would exceed 64 bits.
    ArithmeticOverflow,
}

impl ErrorCode {
    /// The text shown to a caller for each error.
    pub open spec fn spec_message(self) -> Seq<char> {
        match self {
            ErrorCode::ArrayLengthMismatch => "Array length mismatch"@,
            ErrorCode::EmptyParams => "Empty params"@,
            ErrorCode::InsufficientBalance => "Insufficient balance"@,
            ErrorCode::SignatureExpired => "Signature expired"@,
            ErrorCode::InvalidSignature => "Invalid signature"@,
            ErrorCode::SignerNotInWhitelist => "Signer not in whitelist"@,
            ErrorCode::InvalidFeeRatio => "Invalid fee ratio"@,
            ErrorCode::ArithmeticOverflow => "Arithmetic overflow"@,
        }
    }

    /// The text shown to a caller for this error.
    pub fn message(&self) -> (text: &'static str)
        ensures
            text@ == self.spec_message(),
    {
        match self {
            ErrorCode::ArrayLengthMismatch => "Array length mismatch",
            ErrorCode::EmptyParams => "Empty params",
            ErrorCode::InsufficientBalance => "Insufficient balance",
            ErrorCode::SignatureExpired => "Signature expired",
            ErrorCode::InvalidSignature => "Invalid signature",
            ErrorCode::SignerNotInWhitelist => "Signer not in whitelist",
            ErrorCode::InvalidFeeRatio => "Invalid fee ratio",
            ErrorCode::ArithmeticOverflow => "Arithmetic overflow",
        }
    }
}

} // verus!
