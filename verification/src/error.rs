//! Failures that the token program reports to its host.

use vstd::prelude::*;

verus! {

/// Every way in which an instruction, or an encoding step, can fail.
#[derive(Clone, Copy, Debug, PartialEq, Eq, Structural)]
pub enum TokenError {
    /// A required signature is absent. The processor does not tell this
    /// apart: it fails with `InvalidArgument`.
    MissingSigner,
    /// An account is of the wrong kind, names the wrong token or owner, is not
    /// signed for, or would receive more than a balance can hold.
    InvalidArgument,
    /// A buffer is too short for what it should hold, or carries a tag that
    /// names no variant.
    InvalidUserdata,
    /// A balance or an allowance is below the requested amount.
    InsufficientFunds,
    /// Fewer accounts were supplied than the instruction consumes.
    NotEnoughAccountKeys,
    /// Two accounts belong to different tokens. The processor fails with
    /// `InvalidArgument` instead.
    TokenMismatch,
    /// The account is not a delegate. The processor fails with
    /// `InvalidArgument` instead.
    NotDelegate,
    /// The account has no owner. The processor fails with
    /// `InvalidArgument` instead.
    NoOwner,
    /// The state carries no payload and is never written to a buffer.
    UnserializableState,
}

impl TokenError {
    /// The diagnostic line for this error.
    pub open spec fn spec_message(self) -> Seq<char> {
        match self {
            TokenError::MissingSigner => "Error: MissingSigner"@,
            TokenError::InvalidArgument => "Error: InvalidArgument"@,
            TokenError::InvalidUserdata => "Error: InvalidUserdata"@,
            TokenError::InsufficientFunds => "Error: InsufficientFunds"@,
            TokenError::NotEnoughAccountKeys => "Error: NotEnoughAccountKeys"@,
            TokenError::TokenMismatch => "Error: TokenMismatch"@,
            TokenError::NotDelegate => "Error: NotDelegate"@,
            TokenError::NoOwner => "Error: NoOwner"@,
            TokenError::UnserializableState => "Error: UnserializableState"@,
        }
    }

    /// Returns the diagnostic line that a host logs for this error.
    pub fn message(&self) -> (text: &'static str)
        ensures
            text@ == self.spec_message(),
    {
        match self {
            TokenError::MissingSigner => "Error: MissingSigner",
            TokenError::InvalidArgument => "Error: InvalidArgument",
            TokenError::InvalidUserdata => "Error: InvalidUserdata",
            TokenError::InsufficientFunds => "Error: InsufficientFunds",
            TokenError::NotEnoughAccountKeys => "Error: NotEnoughAccountKeys",
            TokenError::TokenMismatch => "Error: TokenMismatch",
            TokenError::NotDelegate => "Error: NotDelegate",
            TokenError::NoOwner => "Error: NoOwner",
            TokenError::UnserializableState => "Error: UnserializableState",
        }
    }
}

} // verus!
