//! The changes that follow from one answer of the cryptographic capability.

use crate::crypto::{created_view, signed_view, CryptoError};
use crate::reason::InvalidReason;
use crate::types::{
    change_set_view, EcdsaChangeAction, EcdsaChangeSet, EcdsaDealing, EcdsaDealingSupport,
    EcdsaMessage, EcdsaMessageId, Height, IDkgDealing, IDkgTranscriptId, MultiSignatureShare,
    NodeId,
};
use crate::verdict::{
    as_changes, created_dealing_verdict, failed_private_verification_verdict, invalid,
    signed_support_verdict, verified_dealing_verdict, verified_support_verdict,
};
use vstd::prelude::*;

verus! {

/// The change set without changes.
pub fn no_change() -> (changes: EcdsaChangeSet)
    ensures
        changes@.len() == 0,
        change_set_view(changes@) == as_changes(None),
{
    let changes: EcdsaChangeSet = Vec::new();
    proof {
        assert(change_set_view(changes@) =~= as_changes(None));
    }
    changes
}

/// The change set of the one change `action`.
pub fn one_change(action: EcdsaChangeAction) -> (changes: EcdsaChangeSet)
    ensures
        changes@.len() == 1,
        change_set_view(changes@) == as_changes(Some(action@)),
{
    let mut changes: EcdsaChangeSet = Vec::new();
    changes.push(action);
    proof {
        assert(change_set_view(changes@) =~= as_changes(Some(action@)));
    }
    changes
}

/// The change set that declares the entry `id` invalid for `reason`.
pub fn invalid_change(id: EcdsaMessageId, reason: InvalidReason) -> (changes: EcdsaChangeSet)
    ensures
        changes@.len() == 1,
        change_set_view(changes@) == as_changes(Some(invalid(id, reason))),
{
    one_change(EcdsaChangeAction::HandleInvalid(id, reason.message()))
}

/// The changes after the attempt to create this replica's dealing for a
/// transcript: the dealing, with the block's height, is added to the validated
/// section, or, after a failure, nothing changes.
pub fn created_dealing_changes(
    node_id: NodeId,
    height: Height,
    transcript_id: IDkgTranscriptId,
    outcome: Result<IDkgDealing, CryptoError>,
) -> (changes: EcdsaChangeSet)
    ensures
        change_set_view(changes@) == as_changes(
            created_dealing_verdict(node_id, height, transcript_id, created_view(outcome)),
        ),
{
    match outcome {
        Ok(dealing) => one_change(
            EcdsaChangeAction::AddToValidated(
                EcdsaMessage::EcdsaDealing(
                    EcdsaDealing {
                        requested_height: height,
                        dealer_id: node_id,
                        transcript_id,
                        dealing,
                    },
                ),
            ),
        ),
        Err(_) => no_change(),
    }
}

/// The changes after the public verification of the unvalidated dealing `id`:
/// it is moved if it verified, invalid after a replicated failure, and left
/// alone after any other failure.
pub fn verified_dealing_changes(id: EcdsaMessageId, outcome: Result<(), CryptoError>) -> (changes:
    EcdsaChangeSet)
    ensures
        change_set_view(changes@) == as_changes(verified_dealing_verdict(id, outcome)),
{
    match outcome {
        Ok(_) => one_change(EcdsaChangeAction::MoveToValidated(id)),
        Err(error) => {
            if error.is_replicated() {
                invalid_change(id, InvalidReason::DealingPermanentError)
            } else {
                no_change()
            }
        },
    }
}

/// The changes after a failed private verification of the validated dealing
/// `id`: it is invalid after a replicated failure, and left alone after any
/// other failure.
pub fn failed_private_verification_changes(id: EcdsaMessageId, error: CryptoError) -> (changes:
    EcdsaChangeSet)
    ensures
        change_set_view(changes@) == as_changes(failed_private_verification_verdict(id, error)),
{
    if error.is_replicated() {
        invalid_change(id, InvalidReason::PrivateVerificationPermanentError)
    } else {
        no_change()
    }
}

/// The changes after the attempt to sign a validated dealing, which
/// passed its private verification: a support with a copy of the dealing and
/// this replica's share is added to the validated section, or, after a
/// failure, nothing changes.
pub fn signed_support_changes(
    node_id: NodeId,
    dealing: &EcdsaDealing,
    signed: Result<Vec<u8>, CryptoError>,
) -> (changes: EcdsaChangeSet)
    ensures
        change_set_view(changes@) == as_changes(
            signed_support_verdict(node_id, dealing@, signed_view(signed)),
        ),
{
    match signed {
        Ok(share) => one_change(
            EcdsaChangeAction::AddToValidated(
                EcdsaMessage::EcdsaDealingSupport(
                    EcdsaDealingSupport {
                        content: dealing.clone(),
                        signature: MultiSignatureShare { signer: node_id, share },
                    },
                ),
            ),
        ),
        Err(_) => no_change(),
    }
}

/// The changes after the verification of the unvalidated support `id`: it is
/// moved if its share verified, and invalid after a failure of either kind.
pub fn verified_support_changes(id: EcdsaMessageId, outcome: Result<(), CryptoError>) -> (changes:
    EcdsaChangeSet)
    ensures
        change_set_view(changes@) == as_changes(verified_support_verdict(id, outcome)),
{
    match outcome {
        Ok(_) => one_change(EcdsaChangeAction::MoveToValidated(id)),
        Err(_) => invalid_change(id, InvalidReason::SupportValidationFailed),
    }
}

} // verus!
