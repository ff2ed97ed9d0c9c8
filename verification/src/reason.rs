//! The reasons for which the engine declares an entry invalid.

use vstd::prelude::*;

verus! {

/// Why an entry of the unvalidated section, or a dealing that failed its
/// private verification, is invalid.
#[derive(Clone, Copy, Debug, PartialEq, Eq, Structural)]
pub enum InvalidReason {
    /// Another dealing of the batch has the same transcript and dealer.
    DuplicateDealingInBatch,
    /// The dealer is not among the dealers of the transcript.
    UnexpectedDealer,
    /// The validated section already holds a dealing of this dealer.
    DuplicateDealing,
    /// The public verification failed for every replica alike.
    DealingPermanentError,
    /// The private verification failed for every replica alike.
    PrivateVerificationPermanentError,
    /// Another support of the batch has the same transcript, dealer and signer.
    DuplicateSupportInBatch,
    /// The signer is not among the receivers of the transcript.
    UnexpectedSupport,
    /// The validated section already holds a support of this signer.
    DuplicateSupport,
    /// The signature share of the support did not verify.
    SupportValidationFailed,
}

impl InvalidReason {
    /// The words that go with the reason.
    pub open spec fn text(self) -> Seq<char> {
        match self {
            InvalidReason::DuplicateDealingInBatch => "duplicate in batch"@,
            InvalidReason::UnexpectedDealer => "unexpected dealer"@,
            InvalidReason::DuplicateDealing => "duplicate"@,
            InvalidReason::DealingPermanentError => "permanent error"@,
            InvalidReason::PrivateVerificationPermanentError => "private verification permanent error"@,
            InvalidReason::DuplicateSupportInBatch => "duplicate in batch"@,
            InvalidReason::UnexpectedSupport => "unexpected support"@,
            InvalidReason::DuplicateSupport => "duplicate support"@,
            InvalidReason::SupportValidationFailed => "support validation failed"@,
        }
    }

    /// The words that go with the reason, as a string.
    pub fn message(self) -> (message: String)
        ensures
            message@ == self.text(),
    {
        match self {
            InvalidReason::DuplicateDealingInBatch => "duplicate in batch".to_owned(),
            InvalidReason::UnexpectedDealer => "unexpected dealer".to_owned(),
            InvalidReason::DuplicateDealing => "duplicate".to_owned(),
            InvalidReason::DealingPermanentError => "permanent error".to_owned(),
            InvalidReason::PrivateVerificationPermanentError => "private verification permanent error".to_owned(),
            InvalidReason::DuplicateSupportInBatch => "duplicate in batch".to_owned(),
            InvalidReason::UnexpectedSupport => "unexpected support".to_owned(),
            InvalidReason::DuplicateSupport => "duplicate support".to_owned(),
            InvalidReason::SupportValidationFailed => "support validation failed".to_owned(),
        }
    }
}

} // verus!
