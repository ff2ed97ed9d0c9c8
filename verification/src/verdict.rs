//! What the engine decides for each entry that it looks at, stated over the
//! pool, the block and the answers of the cryptographic capability.
//!
//! A verdict is the one change that an entry gives rise to, or `None` where
//! the entry gives rise to no change in this call.

use crate::action::{triage, Triage};
use crate::batch::{duplicate_in_batch, DealingKey, SupportKey};
use crate::block_reader::EcdsaBlockReader;
use crate::crypto::{ConsensusCrypto, CryptoError};
use crate::params::IDkgTranscriptParams;
use crate::pool::{dealing_matches, support_matches, EcdsaPool};
use crate::reason::InvalidReason;
use crate::types::{
    EcdsaChangeActionView, EcdsaDealing, EcdsaDealingSupport, EcdsaDealingSupportView,
    EcdsaDealingView, EcdsaMessageId, EcdsaMessageView, Height, IDkgTranscriptId,
    MultiSignatureShareView, NodeId, emitted,
};
use vstd::prelude::*;

verus! {

/// The changes that a verdict stands for: one or none.
pub open spec fn as_changes(verdict: Option<EcdsaChangeActionView>) -> Seq<EcdsaChangeActionView> {
    match verdict {
        Some(action) => seq![action],
        None => Seq::empty(),
    }
}

/// One more verdict adds its changes at the end.
pub proof fn lemma_emitted_push(
    verdicts: Seq<Option<EcdsaChangeActionView>>,
    verdict: Option<EcdsaChangeActionView>,
)
    ensures
        emitted(verdicts.push(verdict)) == emitted(verdicts) + as_changes(verdict),
{
    let longer = verdicts.push(verdict);
    assert(longer.drop_last() =~= verdicts);
    assert(longer.last() == verdict);
    match verdict {
        Some(action) => {
            assert(emitted(verdicts).push(action) =~= emitted(verdicts) + seq![action]);
        },
        None => {
            assert(emitted(verdicts) =~= emitted(verdicts) + Seq::empty());
        },
    }
}

/// The change that declares the entry `id` invalid for `reason`.
pub open spec fn invalid(id: EcdsaMessageId, reason: InvalidReason) -> EcdsaChangeActionView {
    EcdsaChangeActionView::HandleInvalid(id, reason.text())
}

/// The key of a dealing.
pub open spec fn dealing_key(dealing: EcdsaDealing) -> DealingKey {
    DealingKey { transcript_id: dealing.transcript_id, dealer_id: dealing.dealer_id }
}

/// The key of a support.
pub open spec fn support_key(support: EcdsaDealingSupport) -> SupportKey {
    SupportKey {
        transcript_id: support.content.transcript_id,
        dealer_id: support.content.dealer_id,
        signer: support.signature.signer,
    }
}

/// The keys of the dealings of a batch, in its order.
pub open spec fn dealing_keys(entries: Seq<(EcdsaMessageId, EcdsaDealing)>) -> Seq<DealingKey> {
    entries.map_values(|entry: (EcdsaMessageId, EcdsaDealing)| dealing_key(entry.1))
}

/// The keys of the supports of a batch, in its order.
pub open spec fn support_keys(entries: Seq<(EcdsaMessageId, EcdsaDealingSupport)>) -> Seq<
    SupportKey,
> {
    entries.map_values(|entry: (EcdsaMessageId, EcdsaDealingSupport)| support_key(entry.1))
}

/// The validated section holds a dealing with the key exactly if the key is
/// among the keys of its dealings.
pub proof fn lemma_valid_dealings(pool: &EcdsaPool, key: DealingKey)
    ensures
        dealing_keys(pool.validated.dealings@).contains(key) <==> pool.validated.has_dealing(
            key.transcript_id,
            key.dealer_id,
        ),
{
    let dealings = pool.validated.dealings@;
    let keys = dealing_keys(dealings);
    if keys.contains(key) {
        let k = choose|k: int| 0 <= k < keys.len() && keys[k] == key;
        assert(dealing_matches(dealings[k].1, key.transcript_id, key.dealer_id));
    }
    if pool.validated.has_dealing(key.transcript_id, key.dealer_id) {
        let k = choose|k: int|
            0 <= k < dealings.len() && dealing_matches(
                #[trigger] dealings[k].1,
                key.transcript_id,
                key.dealer_id,
            );
        assert(keys[k] == key);
    }
}

/// The validated section holds a support with the key exactly if the key is
/// among the keys of its supports.
pub proof fn lemma_valid_supports(pool: &EcdsaPool, key: SupportKey)
    ensures
        support_keys(pool.validated.dealing_support@).contains(key)
            <==> pool.validated.has_support(key.transcript_id, key.dealer_id, key.signer),
{
    let supports = pool.validated.dealing_support@;
    let keys = support_keys(supports);
    if keys.contains(key) {
        let k = choose|k: int| 0 <= k < keys.len() && keys[k] == key;
        assert(support_matches(supports[k].1, key.transcript_id, key.dealer_id, key.signer));
    }
    if pool.validated.has_support(key.transcript_id, key.dealer_id, key.signer) {
        let k = choose|k: int|
            0 <= k < supports.len() && support_matches(
                #[trigger] supports[k].1,
                key.transcript_id,
                key.dealer_id,
                key.signer,
            );
        assert(keys[k] == key);
    }
}

/// The verdict on the attempt to create this replica's dealing: the dealing is
/// added with the block's height, or nothing happens. A failure of either kind
/// is tried again in the next call.
pub open spec fn created_dealing_verdict(
    node_id: NodeId,
    height: Height,
    transcript_id: IDkgTranscriptId,
    outcome: Result<Seq<u8>, CryptoError>,
) -> Option<EcdsaChangeActionView> {
    match outcome {
        Ok(bytes) => Some(
            EcdsaChangeActionView::AddToValidated(
                EcdsaMessageView::EcdsaDealing(
                    EcdsaDealingView {
                        requested_height: height,
                        dealer_id: node_id,
                        transcript_id,
                        dealing: bytes,
                    },
                ),
            ),
        ),
        Err(_) => None,
    }
}

/// Whether this replica owes a dealing for the request: it is one of the
/// dealers and the validated section holds no dealing of it for the transcript.
pub open spec fn owes_dealing(node_id: NodeId, pool: &EcdsaPool, params: IDkgTranscriptParams) -> bool {
    params.dealers.contains(node_id) && !pool.validated.has_dealing(params.transcript_id, node_id)
}

/// The verdict on the request at place `k` of the block.
pub open spec fn own_dealing_verdict(
    node_id: NodeId,
    pool: &EcdsaPool,
    reader: &EcdsaBlockReader,
    k: int,
    outcome: Result<Seq<u8>, CryptoError>,
) -> Option<EcdsaChangeActionView> {
    let params = reader.requests@[k];
    if owes_dealing(node_id, pool, params) {
        created_dealing_verdict(node_id, reader.height, params.transcript_id, outcome)
    } else {
        None
    }
}

/// The verdicts on all requests of the block.
pub open spec fn own_dealing_verdicts(
    node_id: NodeId,
    pool: &EcdsaPool,
    reader: &EcdsaBlockReader,
    outcomes: Seq<Result<Seq<u8>, CryptoError>>,
) -> Seq<Option<EcdsaChangeActionView>> {
    Seq::new(
        reader.requests@.len(),
        |k: int| own_dealing_verdict(node_id, pool, reader, k, outcomes[k]),
    )
}

/// Whether `outcome` may be the answer on which the verdict on the request at
/// place `k` rests: where the replica owes a dealing, the capability is asked
/// to create one for that request.
pub open spec fn own_dealing_answer<C: ConsensusCrypto>(
    crypto: &C,
    node_id: NodeId,
    pool: &EcdsaPool,
    reader: &EcdsaBlockReader,
    k: int,
    outcome: Result<Seq<u8>, CryptoError>,
) -> bool {
    owes_dealing(node_id, pool, reader.requests@[k]) ==> crypto.may_create_dealing(
        reader.requests@[k],
        outcome,
    )
}

/// Whether `outcomes` may be the answers of the capability in one sending of
/// dealings, one for each request.
pub open spec fn own_dealing_answers<C: ConsensusCrypto>(
    crypto: &C,
    node_id: NodeId,
    pool: &EcdsaPool,
    reader: &EcdsaBlockReader,
    outcomes: Seq<Result<Seq<u8>, CryptoError>>,
) -> bool {
    &&& outcomes.len() == reader.requests@.len()
    &&& forall|k: int|
        0 <= k < outcomes.len() ==> own_dealing_answer(
            crypto,
            node_id,
            pool,
            reader,
            k,
            #[trigger] outcomes[k],
        )
}

/// Whether `changes` is what sending dealings gives for some answers that the
/// cryptographic capability may give.
pub open spec fn may_send_dealings<C: ConsensusCrypto>(
    crypto: &C,
    node_id: NodeId,
    pool: &EcdsaPool,
    reader: &EcdsaBlockReader,
    changes: Seq<EcdsaChangeActionView>,
) -> bool {
    exists|outcomes: Seq<Result<Seq<u8>, CryptoError>>|
        own_dealing_answers(crypto, node_id, pool, reader, outcomes) && changes == emitted(
            #[trigger] own_dealing_verdicts(node_id, pool, reader, outcomes),
        )
}

/// The verdict on a dealing after its public verification: moved if it
/// verified, invalid if it failed for every replica alike, left for the next
/// call if it failed for this replica only.
pub open spec fn verified_dealing_verdict(
    id: EcdsaMessageId,
    outcome: Result<(), CryptoError>,
) -> Option<EcdsaChangeActionView> {
    match outcome {
        Ok(_) => Some(EcdsaChangeActionView::MoveToValidated(id)),
        Err(error) => if error.replicated {
            Some(invalid(id, InvalidReason::DealingPermanentError))
        } else {
            None
        },
    }
}

/// The place of the request under which the unvalidated dealing at place `i`
/// is verified, if the verdict on it rests on a verification: its key occurs
/// once in the batch, it is not from above the block, the block requests its
/// transcript, its dealer is one of the dealers of the first such request, and
/// the validated section holds no dealing with its key.
pub open spec fn dealing_to_verify(pool: &EcdsaPool, reader: &EcdsaBlockReader, i: int) -> Option<
    int,
> {
    let entries = pool.unvalidated.dealings@;
    let dealing = entries[i].1;
    if duplicate_in_batch(dealing_keys(entries), i) {
        None
    } else {
        match triage(reader, dealing.requested_height, dealing.transcript_id) {
            Triage::Process(place) => {
                if reader.requests@[place].dealers.contains(dealing.dealer_id)
                    && !pool.validated.has_dealing(dealing.transcript_id, dealing.dealer_id) {
                    Some(place)
                } else {
                    None
                }
            },
            _ => None,
        }
    }
}

/// Whether `outcome` may be the answer on which the verdict on the unvalidated
/// dealing at place `i` rests: where the dealing is verified, the capability
/// is asked about it under the request for its transcript.
pub open spec fn dealing_answer<C: ConsensusCrypto>(
    crypto: &C,
    pool: &EcdsaPool,
    reader: &EcdsaBlockReader,
    i: int,
    outcome: Result<(), CryptoError>,
) -> bool {
    match dealing_to_verify(pool, reader, i) {
        Some(place) => crypto.may_verify_dealing_public(
            reader.requests@[place],
            pool.unvalidated.dealings@[i].1.dealing@,
            outcome,
        ),
        None => true,
    }
}

/// Whether `outcomes` may be the answers of the capability in one validation
/// of the dealings, one for each unvalidated dealing.
pub open spec fn dealing_answers<C: ConsensusCrypto>(
    crypto: &C,
    pool: &EcdsaPool,
    reader: &EcdsaBlockReader,
    outcomes: Seq<Result<(), CryptoError>>,
) -> bool {
    &&& outcomes.len() == pool.unvalidated.dealings@.len()
    &&& forall|i: int|
        0 <= i < outcomes.len() ==> dealing_answer(crypto, pool, reader, i, #[trigger] outcomes[i])
}

/// The verdict on the unvalidated dealing at place `i`.
pub open spec fn dealing_verdict(
    pool: &EcdsaPool,
    reader: &EcdsaBlockReader,
    i: int,
    outcome: Result<(), CryptoError>,
) -> Option<EcdsaChangeActionView> {
    let entries = pool.unvalidated.dealings@;
    let id = entries[i].0;
    let dealing = entries[i].1;
    if duplicate_in_batch(dealing_keys(entries), i) {
        Some(invalid(id, InvalidReason::DuplicateDealingInBatch))
    } else {
        match triage(reader, dealing.requested_height, dealing.transcript_id) {
            Triage::Defer => None,
            Triage::Drop => Some(EcdsaChangeActionView::RemoveUnvalidated(id)),
            Triage::Process(place) => {
                if !reader.requests@[place].dealers.contains(dealing.dealer_id) {
                    Some(invalid(id, InvalidReason::UnexpectedDealer))
                } else if pool.validated.has_dealing(dealing.transcript_id, dealing.dealer_id) {
                    Some(invalid(id, InvalidReason::DuplicateDealing))
                } else {
                    verified_dealing_verdict(id, outcome)
                }
            },
        }
    }
}

/// The verdicts on all unvalidated dealings.
pub open spec fn dealing_verdicts(
    pool: &EcdsaPool,
    reader: &EcdsaBlockReader,
    outcomes: Seq<Result<(), CryptoError>>,
) -> Seq<Option<EcdsaChangeActionView>> {
    Seq::new(
        pool.unvalidated.dealings@.len(),
        |i: int| dealing_verdict(pool, reader, i, outcomes[i]),
    )
}

/// Whether `changes` is what validating the dealings gives for some answers
/// that the cryptographic capability may give.
pub open spec fn may_validate_dealings<C: ConsensusCrypto>(
    crypto: &C,
    pool: &EcdsaPool,
    reader: &EcdsaBlockReader,
    changes: Seq<EcdsaChangeActionView>,
) -> bool {
    exists|outcomes: Seq<Result<(), CryptoError>>|
        dealing_answers(crypto, pool, reader, outcomes) && changes == emitted(
            #[trigger] dealing_verdicts(pool, reader, outcomes),
        )
}

/// The verdict on a validated dealing whose private verification failed:
/// invalid if it failed for every replica alike, else left for the next call.
pub open spec fn failed_private_verification_verdict(
    id: EcdsaMessageId,
    error: CryptoError,
) -> Option<EcdsaChangeActionView> {
    if error.replicated {
        Some(invalid(id, InvalidReason::PrivateVerificationPermanentError))
    } else {
        None
    }
}

/// The verdict on a validated dealing that passed its private verification,
/// after the attempt to sign it: a support by this replica that holds the
/// dealing and the share, or nothing if the signing failed.
pub open spec fn signed_support_verdict(
    node_id: NodeId,
    dealing: EcdsaDealingView,
    signed: Result<Seq<u8>, CryptoError>,
) -> Option<EcdsaChangeActionView> {
    match signed {
        Ok(share) => Some(
            EcdsaChangeActionView::AddToValidated(
                EcdsaMessageView::EcdsaDealingSupport(
                    EcdsaDealingSupportView {
                        content: dealing,
                        signature: MultiSignatureShareView { signer: node_id, share },
                    },
                ),
            ),
        ),
        Err(_) => None,
    }
}

/// The verdict on a validated dealing after its private verification and,
/// where that passed, the signing.
pub open spec fn created_support_verdict(
    node_id: NodeId,
    id: EcdsaMessageId,
    dealing: EcdsaDealingView,
    verified: Result<(), CryptoError>,
    signed: Result<Seq<u8>, CryptoError>,
) -> Option<EcdsaChangeActionView> {
    match verified {
        Err(error) => failed_private_verification_verdict(id, error),
        Ok(_) => signed_support_verdict(node_id, dealing, signed),
    }
}

/// The request under which this replica owes a support for `dealing`, if it
/// owes one: it has issued none yet, the block requests the transcript, and
/// the replica is one of its receivers. Of several requests for one
/// transcript the last counts.
pub open spec fn owes_support(
    node_id: NodeId,
    pool: &EcdsaPool,
    reader: &EcdsaBlockReader,
    dealing: EcdsaDealing,
) -> Option<int> {
    if pool.validated.has_support(dealing.transcript_id, dealing.dealer_id, node_id) {
        None
    } else {
        match reader.last_request_for(dealing.transcript_id) {
            Some(place) => if reader.requests@[place].receivers.contains(node_id) {
                Some(place)
            } else {
                None
            },
            None => None,
        }
    }
}

/// The verdict on the validated dealing at place `i`.
pub open spec fn own_support_verdict(
    node_id: NodeId,
    pool: &EcdsaPool,
    reader: &EcdsaBlockReader,
    i: int,
    outcome: (Result<(), CryptoError>, Result<Seq<u8>, CryptoError>),
) -> Option<EcdsaChangeActionView> {
    let entries = pool.validated.dealings@;
    if owes_support(node_id, pool, reader, entries[i].1).is_some() {
        created_support_verdict(node_id, entries[i].0, entries[i].1@, outcome.0, outcome.1)
    } else {
        None
    }
}

/// The verdicts on all validated dealings.
pub open spec fn own_support_verdicts(
    node_id: NodeId,
    pool: &EcdsaPool,
    reader: &EcdsaBlockReader,
    outcomes: Seq<(Result<(), CryptoError>, Result<Seq<u8>, CryptoError>)>,
) -> Seq<Option<EcdsaChangeActionView>> {
    Seq::new(
        pool.validated.dealings@.len(),
        |i: int| own_support_verdict(node_id, pool, reader, i, outcomes[i]),
    )
}

/// Whether `outcome` may be the pair of answers on which the verdict on the
/// validated dealing at place `i` rests: where the replica owes a support, the
/// capability is asked to verify the dealing privately under the request for
/// its transcript and, if it passes, to sign it in the name of this replica
/// with the registry version of that request.
pub open spec fn own_support_answer<C: ConsensusCrypto>(
    crypto: &C,
    node_id: NodeId,
    pool: &EcdsaPool,
    reader: &EcdsaBlockReader,
    i: int,
    outcome: (Result<(), CryptoError>, Result<Seq<u8>, CryptoError>),
) -> bool {
    let dealing = pool.validated.dealings@[i].1;
    match owes_support(node_id, pool, reader, dealing) {
        Some(place) => {
            &&& crypto.may_verify_dealing_private(
                reader.requests@[place],
                dealing.dealing@,
                outcome.0,
            )
            &&& outcome.0.is_ok() ==> crypto.may_sign(
                dealing@,
                node_id,
                reader.requests@[place].registry_version,
                outcome.1,
            )
        },
        None => true,
    }
}

/// Whether `outcomes` may be the answers of the capability in one sending of
/// supports, one pair for each validated dealing.
pub open spec fn own_support_answers<C: ConsensusCrypto>(
    crypto: &C,
    node_id: NodeId,
    pool: &EcdsaPool,
    reader: &EcdsaBlockReader,
    outcomes: Seq<(Result<(), CryptoError>, Result<Seq<u8>, CryptoError>)>,
) -> bool {
    &&& outcomes.len() == pool.validated.dealings@.len()
    &&& forall|i: int|
        0 <= i < outcomes.len() ==> own_support_answer(
            crypto,
            node_id,
            pool,
            reader,
            i,
            #[trigger] outcomes[i],
        )
}

/// Whether `changes` is what sending supports gives for some answers that the
/// cryptographic capability may give.
pub open spec fn may_send_dealing_support<C: ConsensusCrypto>(
    crypto: &C,
    node_id: NodeId,
    pool: &EcdsaPool,
    reader: &EcdsaBlockReader,
    changes: Seq<EcdsaChangeActionView>,
) -> bool {
    exists|outcomes: Seq<(Result<(), CryptoError>, Result<Seq<u8>, CryptoError>)>|
        own_support_answers(crypto, node_id, pool, reader, outcomes) && changes == emitted(
            #[trigger] own_support_verdicts(node_id, pool, reader, outcomes),
        )
}

/// The verdict on a support after the verification of its signature share:
/// moved if it verified, invalid if it failed in whatever way.
pub open spec fn verified_support_verdict(
    id: EcdsaMessageId,
    outcome: Result<(), CryptoError>,
) -> Option<EcdsaChangeActionView> {
    match outcome {
        Ok(_) => Some(EcdsaChangeActionView::MoveToValidated(id)),
        Err(_) => Some(invalid(id, InvalidReason::SupportValidationFailed)),
    }
}

/// The place of the request under which the unvalidated support at place `i`
/// is verified, if the verdict on it rests on a verification: its key occurs
/// once in the batch, it is not from above the block, the block requests its
/// transcript, its signer is one of the receivers of the first such request,
/// and the validated section holds its dealing and no support with its key.
pub open spec fn support_to_verify(pool: &EcdsaPool, reader: &EcdsaBlockReader, i: int) -> Option<
    int,
> {
    let entries = pool.unvalidated.dealing_support@;
    let support = entries[i].1;
    let dealing = support.content;
    if duplicate_in_batch(support_keys(entries), i) {
        None
    } else {
        match triage(reader, dealing.requested_height, dealing.transcript_id) {
            Triage::Process(place) => {
                if reader.requests@[place].receivers.contains(support.signature.signer)
                    && pool.validated.has_dealing(dealing.transcript_id, dealing.dealer_id)
                    && !pool.validated.has_support(
                    dealing.transcript_id,
                    dealing.dealer_id,
                    support.signature.signer,
                ) {
                    Some(place)
                } else {
                    None
                }
            },
            _ => None,
        }
    }
}

/// Whether `outcome` may be the answer on which the verdict on the unvalidated
/// support at place `i` rests: where the support is verified, the capability
/// is asked about it with the registry version of the request for its
/// transcript.
pub open spec fn support_answer<C: ConsensusCrypto>(
    crypto: &C,
    pool: &EcdsaPool,
    reader: &EcdsaBlockReader,
    i: int,
    outcome: Result<(), CryptoError>,
) -> bool {
    match support_to_verify(pool, reader, i) {
        Some(place) => crypto.may_verify(
            pool.unvalidated.dealing_support@[i].1@,
            reader.requests@[place].registry_version,
            outcome,
        ),
        None => true,
    }
}

/// Whether `outcomes` may be the answers of the capability in one validation
/// of the supports, one for each unvalidated support.
pub open spec fn support_answers<C: ConsensusCrypto>(
    crypto: &C,
    pool: &EcdsaPool,
    reader: &EcdsaBlockReader,
    outcomes: Seq<Result<(), CryptoError>>,
) -> bool {
    &&& outcomes.len() == pool.unvalidated.dealing_support@.len()
    &&& forall|i: int|
        0 <= i < outcomes.len() ==> support_answer(crypto, pool, reader, i, #[trigger] outcomes[i])
}

/// The verdict on the unvalidated support at place `i`.
pub open spec fn support_verdict(
    pool: &EcdsaPool,
    reader: &EcdsaBlockReader,
    i: int,
    outcome: Result<(), CryptoError>,
) -> Option<EcdsaChangeActionView> {
    let entries = pool.unvalidated.dealing_support@;
    let id = entries[i].0;
    let support = entries[i].1;
    let dealing = support.content;
    if duplicate_in_batch(support_keys(entries), i) {
        Some(invalid(id, InvalidReason::DuplicateSupportInBatch))
    } else {
        match triage(reader, dealing.requested_height, dealing.transcript_id) {
            Triage::Defer => None,
            Triage::Drop => Some(EcdsaChangeActionView::RemoveUnvalidated(id)),
            Triage::Process(place) => {
                if !reader.requests@[place].receivers.contains(support.signature.signer) {
                    Some(invalid(id, InvalidReason::UnexpectedSupport))
                } else if !pool.validated.has_dealing(dealing.transcript_id, dealing.dealer_id) {
                    None
                } else if pool.validated.has_support(
                    dealing.transcript_id,
                    dealing.dealer_id,
                    support.signature.signer,
                ) {
                    Some(invalid(id, InvalidReason::DuplicateSupport))
                } else {
                    verified_support_verdict(id, outcome)
                }
            },
        }
    }
}

/// The verdicts on all unvalidated supports.
pub open spec fn support_verdicts(
    pool: &EcdsaPool,
    reader: &EcdsaBlockReader,
    outcomes: Seq<Result<(), CryptoError>>,
) -> Seq<Option<EcdsaChangeActionView>> {
    Seq::new(
        pool.unvalidated.dealing_support@.len(),
        |i: int| support_verdict(pool, reader, i, outcomes[i]),
    )
}

/// Whether `changes` is what validating the supports gives for some answers
/// that the cryptographic capability may give.
pub open spec fn may_validate_dealing_support<C: ConsensusCrypto>(
    crypto: &C,
    pool: &EcdsaPool,
    reader: &EcdsaBlockReader,
    changes: Seq<EcdsaChangeActionView>,
) -> bool {
    exists|outcomes: Seq<Result<(), CryptoError>>|
        support_answers(crypto, pool, reader, outcomes) && changes == emitted(
            #[trigger] support_verdicts(pool, reader, outcomes),
        )
}

} // verus!
