//! What holds of the changes that the engine proposes, whatever the
//! cryptographic capability answers.

use crate::action::{triage, Triage};
use crate::batch::duplicate_in_batch;
use crate::block_reader::{
    distinct_requests, lemma_first_request, lemma_last_request, EcdsaBlockReader,
};
use crate::crypto::{ConsensusCrypto, CryptoError};
use crate::origin::{
    distinct_ids, lemma_origin, lemma_origin_ascends, origin, target, verdict_is_emitted,
};
use crate::pool::EcdsaPool;
use crate::types::{
    emitted, EcdsaChangeActionView, EcdsaDealingSupportView, EcdsaDealingView, EcdsaMessageView,
    NodeId,
};
use crate::verdict::{
    dealing_answers, dealing_keys, dealing_verdict, dealing_verdicts, may_send_dealing_support,
    may_send_dealings, may_validate_dealing_support, may_validate_dealings, own_dealing_answers,
    own_dealing_verdicts, own_support_answers, own_support_verdicts, owes_dealing, owes_support,
    support_answers, support_keys, support_verdict, support_verdicts,
};
use vstd::prelude::*;

verus! {

/// Whether the unvalidated dealing at place `i` may be moved: it is not from
/// above the block, the block requests its transcript, its dealer is one of
/// the dealers of that request, the validated section holds no dealing with
/// its key, and neither does another place of the batch.
pub open spec fn movable_dealing(pool: &EcdsaPool, reader: &EcdsaBlockReader, i: int) -> bool {
    let entries = pool.unvalidated.dealings@;
    let dealing = entries[i].1;
    &&& 0 <= i < entries.len()
    &&& dealing.requested_height.0 <= reader.height.0
    &&& match triage(reader, dealing.requested_height, dealing.transcript_id) {
        Triage::Process(place) => {
            &&& 0 <= place < reader.requests@.len()
            &&& reader.requests@[place].transcript_id == dealing.transcript_id
            &&& reader.requests@[place].dealers.contains(dealing.dealer_id)
        },
        _ => false,
    }
    &&& !pool.validated.has_dealing(dealing.transcript_id, dealing.dealer_id)
    &&& !duplicate_in_batch(dealing_keys(entries), i)
}

/// Whether the unvalidated support at place `i` may be moved: it is not from
/// above the block, the block requests its transcript, its signer is one of
/// the receivers of that request, the validated section holds its dealing and
/// no support with its key, and neither does another place of the batch.
pub open spec fn movable_support(pool: &EcdsaPool, reader: &EcdsaBlockReader, i: int) -> bool {
    let entries = pool.unvalidated.dealing_support@;
    let support = entries[i].1;
    let dealing = support.content;
    &&& 0 <= i < entries.len()
    &&& dealing.requested_height.0 <= reader.height.0
    &&& match triage(reader, dealing.requested_height, dealing.transcript_id) {
        Triage::Process(place) => {
            &&& 0 <= place < reader.requests@.len()
            &&& reader.requests@[place].transcript_id == dealing.transcript_id
            &&& reader.requests@[place].receivers.contains(support.signature.signer)
        },
        _ => false,
    }
    &&& pool.validated.has_dealing(dealing.transcript_id, dealing.dealer_id)
    &&& !pool.validated.has_support(
        dealing.transcript_id,
        dealing.dealer_id,
        support.signature.signer,
    )
    &&& !duplicate_in_batch(support_keys(entries), i)
}

/// Every change of the validation of dealings is the verdict on one
/// unvalidated dealing, for some answer of the capability. The place of that
/// dealing and the answer are returned.
pub proof fn dealing_change_has_origin<C: ConsensusCrypto>(
    crypto: &C,
    pool: &EcdsaPool,
    reader: &EcdsaBlockReader,
    changes: Seq<EcdsaChangeActionView>,
    j: int,
) -> (found: (int, Result<(), CryptoError>))
    requires
        may_validate_dealings(crypto, pool, reader, changes),
        0 <= j < changes.len(),
    ensures
        0 <= found.0 < pool.unvalidated.dealings@.len(),
        dealing_verdict(pool, reader, found.0, found.1) == Some(changes[j]),
        target(changes[j]) == Some(pool.unvalidated.dealings@[found.0].0),
{
    let outcomes = choose|outcomes: Seq<Result<(), CryptoError>>|
        dealing_answers(crypto, pool, reader, outcomes) && changes == emitted(
            #[trigger] dealing_verdicts(pool, reader, outcomes),
        );
    let verdicts = dealing_verdicts(pool, reader, outcomes);
    lemma_origin(verdicts, j);
    let i = origin(verdicts, j);
    (i, outcomes[i])
}

/// Every unvalidated dealing gives rise to at most one change: two changes of
/// the validation of dealings are about two entries, if no two entries of the
/// batch have the same identifier.
pub proof fn one_change_per_dealing<C: ConsensusCrypto>(
    crypto: &C,
    pool: &EcdsaPool,
    reader: &EcdsaBlockReader,
    changes: Seq<EcdsaChangeActionView>,
    j: int,
    k: int,
)
    requires
        may_validate_dealings(crypto, pool, reader, changes),
        distinct_ids(pool.unvalidated.dealings@),
        0 <= j < k < changes.len(),
    ensures
        target(changes[j]).is_some(),
        target(changes[k]).is_some(),
        target(changes[j]) != target(changes[k]),
{
    let outcomes = choose|outcomes: Seq<Result<(), CryptoError>>|
        dealing_answers(crypto, pool, reader, outcomes) && changes == emitted(
            #[trigger] dealing_verdicts(pool, reader, outcomes),
        );
    let verdicts = dealing_verdicts(pool, reader, outcomes);
    lemma_origin(verdicts, j);
    lemma_origin(verdicts, k);
    lemma_origin_ascends(verdicts, j, k);
}

/// An unvalidated dealing on which the verdict is `None` is deferred: no
/// change of the validation is about it. A dealing on which the verdict is a
/// change is the target of that change.
pub proof fn dealing_is_deferred_or_changed<C: ConsensusCrypto>(
    crypto: &C,
    pool: &EcdsaPool,
    reader: &EcdsaBlockReader,
    outcomes: Seq<Result<(), CryptoError>>,
    i: int,
)
    requires
        dealing_answers(crypto, pool, reader, outcomes),
        distinct_ids(pool.unvalidated.dealings@),
        0 <= i < pool.unvalidated.dealings@.len(),
    ensures
        ({
            let changes = emitted(dealing_verdicts(pool, reader, outcomes));
            let id = pool.unvalidated.dealings@[i].0;
            match dealing_verdict(pool, reader, i, outcomes[i]) {
                Some(change) => target(change) == Some(id) && changes.contains(change),
                None => forall|j: int| 0 <= j < changes.len() ==> target(changes[j]) != Some(id),
            }
        }),
{
    let verdicts = dealing_verdicts(pool, reader, outcomes);
    let changes = emitted(verdicts);
    if verdicts[i].is_some() {
        verdict_is_emitted(verdicts, i);
    } else {
        assert forall|j: int| 0 <= j < changes.len() implies target(changes[j]) != Some(
            pool.unvalidated.dealings@[i].0,
        ) by {
            lemma_origin(verdicts, j);
        }
    }
}

/// No change of the validation of dealings is about a dealing from above the
/// block, but for the dealings whose key occurs twice in the batch, which are
/// invalid whatever their height. The place of the dealing is returned.
pub proof fn no_future_dealing_is_touched<C: ConsensusCrypto>(
    crypto: &C,
    pool: &EcdsaPool,
    reader: &EcdsaBlockReader,
    changes: Seq<EcdsaChangeActionView>,
    j: int,
) -> (i: int)
    requires
        may_validate_dealings(crypto, pool, reader, changes),
        0 <= j < changes.len(),
    ensures
        0 <= i < pool.unvalidated.dealings@.len(),
        target(changes[j]) == Some(pool.unvalidated.dealings@[i].0),
        pool.unvalidated.dealings@[i].1.requested_height.0 <= reader.height.0 || duplicate_in_batch(
            dealing_keys(pool.unvalidated.dealings@),
            i,
        ),
{
    dealing_change_has_origin(crypto, pool, reader, changes, j).0
}

/// A dealing is moved to the validated section only if it may be moved: its
/// dealer is authorized, and the validated section holds no dealing with its
/// key. The place of the dealing is returned.
pub proof fn moved_dealing_is_movable<C: ConsensusCrypto>(
    crypto: &C,
    pool: &EcdsaPool,
    reader: &EcdsaBlockReader,
    changes: Seq<EcdsaChangeActionView>,
    j: int,
) -> (i: int)
    requires
        may_validate_dealings(crypto, pool, reader, changes),
        0 <= j < changes.len(),
        changes[j] is MoveToValidated,
    ensures
        changes[j] == EcdsaChangeActionView::MoveToValidated(pool.unvalidated.dealings@[i].0),
        movable_dealing(pool, reader, i),
{
    let i = dealing_change_has_origin(crypto, pool, reader, changes, j).0;
    lemma_first_request(reader.requests@, pool.unvalidated.dealings@[i].1.transcript_id, 0);
    i
}

/// Two dealings that are moved in one call differ in their key, so that the
/// validated section holds at most one dealing of each dealer for each
/// transcript after the call if it did before. The places of the two dealings
/// are returned.
pub proof fn moved_dealings_differ<C: ConsensusCrypto>(
    crypto: &C,
    pool: &EcdsaPool,
    reader: &EcdsaBlockReader,
    changes: Seq<EcdsaChangeActionView>,
    j: int,
    k: int,
) -> (places: (int, int))
    requires
        may_validate_dealings(crypto, pool, reader, changes),
        0 <= j < k < changes.len(),
        changes[j] is MoveToValidated,
        changes[k] is MoveToValidated,
    ensures
        changes[j] == EcdsaChangeActionView::MoveToValidated(
            pool.unvalidated.dealings@[places.0].0,
        ),
        changes[k] == EcdsaChangeActionView::MoveToValidated(
            pool.unvalidated.dealings@[places.1].0,
        ),
        movable_dealing(pool, reader, places.0),
        movable_dealing(pool, reader, places.1),
        places.0 != places.1,
        dealing_keys(pool.unvalidated.dealings@)[places.0] != dealing_keys(
            pool.unvalidated.dealings@,
        )[places.1],
{
    let outcomes = choose|outcomes: Seq<Result<(), CryptoError>>|
        dealing_answers(crypto, pool, reader, outcomes) && changes == emitted(
            #[trigger] dealing_verdicts(pool, reader, outcomes),
        );
    let verdicts = dealing_verdicts(pool, reader, outcomes);
    lemma_origin(verdicts, j);
    lemma_origin(verdicts, k);
    lemma_origin_ascends(verdicts, j, k);
    let first = origin(verdicts, j);
    let second = origin(verdicts, k);
    lemma_first_request(
        reader.requests@,
        pool.unvalidated.dealings@[first].1.transcript_id,
        0,
    );
    lemma_first_request(
        reader.requests@,
        pool.unvalidated.dealings@[second].1.transcript_id,
        0,
    );
    (first, second)
}

/// Every change of the validation of supports is the verdict on one
/// unvalidated support, for some answer of the capability. The place of that
/// support and the answer are returned.
pub proof fn support_change_has_origin<C: ConsensusCrypto>(
    crypto: &C,
    pool: &EcdsaPool,
    reader: &EcdsaBlockReader,
    changes: Seq<EcdsaChangeActionView>,
    j: int,
) -> (found: (int, Result<(), CryptoError>))
    requires
        may_validate_dealing_support(crypto, pool, reader, changes),
        0 <= j < changes.len(),
    ensures
        0 <= found.0 < pool.unvalidated.dealing_support@.len(),
        support_verdict(pool, reader, found.0, found.1) == Some(changes[j]),
        target(changes[j]) == Some(pool.unvalidated.dealing_support@[found.0].0),
{
    let outcomes = choose|outcomes: Seq<Result<(), CryptoError>>|
        support_answers(crypto, pool, reader, outcomes) && changes == emitted(
            #[trigger] support_verdicts(pool, reader, outcomes),
        );
    let verdicts = support_verdicts(pool, reader, outcomes);
    lemma_origin(verdicts, j);
    let i = origin(verdicts, j);
    (i, outcomes[i])
}

/// Every unvalidated support gives rise to at most one change: two changes of
/// the validation of supports are about two entries, if no two entries of the
/// batch have the same identifier.
pub proof fn one_change_per_support<C: ConsensusCrypto>(
    crypto: &C,
    pool: &EcdsaPool,
    reader: &EcdsaBlockReader,
    changes: Seq<EcdsaChangeActionView>,
    j: int,
    k: int,
)
    requires
        may_validate_dealing_support(crypto, pool, reader, changes),
        distinct_ids(pool.unvalidated.dealing_support@),
        0 <= j < k < changes.len(),
    ensures
        target(changes[j]).is_some(),
        target(changes[k]).is_some(),
        target(changes[j]) != target(changes[k]),
{
    let outcomes = choose|outcomes: Seq<Result<(), CryptoError>>|
        support_answers(crypto, pool, reader, outcomes) && changes == emitted(
            #[trigger] support_verdicts(pool, reader, outcomes),
        );
    let verdicts = support_verdicts(pool, reader, outcomes);
    lemma_origin(verdicts, j);
    lemma_origin(verdicts, k);
    lemma_origin_ascends(verdicts, j, k);
}

/// An unvalidated support on which the verdict is `None` is deferred: no
/// change of the validation is about it. A support on which the verdict is a
/// change is the target of that change.
pub proof fn support_is_deferred_or_changed<C: ConsensusCrypto>(
    crypto: &C,
    pool: &EcdsaPool,
    reader: &EcdsaBlockReader,
    outcomes: Seq<Result<(), CryptoError>>,
    i: int,
)
    requires
        support_answers(crypto, pool, reader, outcomes),
        distinct_ids(pool.unvalidated.dealing_support@),
        0 <= i < pool.unvalidated.dealing_support@.len(),
    ensures
        ({
            let changes = emitted(support_verdicts(pool, reader, outcomes));
            let id = pool.unvalidated.dealing_support@[i].0;
            match support_verdict(pool, reader, i, outcomes[i]) {
                Some(change) => target(change) == Some(id) && changes.contains(change),
                None => forall|j: int| 0 <= j < changes.len() ==> target(changes[j]) != Some(id),
            }
        }),
{
    let verdicts = support_verdicts(pool, reader, outcomes);
    let changes = emitted(verdicts);
    if verdicts[i].is_some() {
        verdict_is_emitted(verdicts, i);
    } else {
        assert forall|j: int| 0 <= j < changes.len() implies target(changes[j]) != Some(
            pool.unvalidated.dealing_support@[i].0,
        ) by {
            lemma_origin(verdicts, j);
        }
    }
}

/// No change of the validation of supports is about a support from above the
/// block, but for the supports whose key occurs twice in the batch, which are
/// invalid whatever their height. The place of the support is returned.
pub proof fn no_future_support_is_touched<C: ConsensusCrypto>(
    crypto: &C,
    pool: &EcdsaPool,
    reader: &EcdsaBlockReader,
    changes: Seq<EcdsaChangeActionView>,
    j: int,
) -> (i: int)
    requires
        may_validate_dealing_support(crypto, pool, reader, changes),
        0 <= j < changes.len(),
    ensures
        0 <= i < pool.unvalidated.dealing_support@.len(),
        target(changes[j]) == Some(pool.unvalidated.dealing_support@[i].0),
        pool.unvalidated.dealing_support@[i].1.content.requested_height.0 <= reader.height.0
            || duplicate_in_batch(support_keys(pool.unvalidated.dealing_support@), i),
{
    support_change_has_origin(crypto, pool, reader, changes, j).0
}

/// A support is moved to the validated section only if it may be moved: its
/// signer is authorized, the validated section holds its dealing, and it
/// holds no support with its key. The place of the support is returned.
pub proof fn moved_support_is_movable<C: ConsensusCrypto>(
    crypto: &C,
    pool: &EcdsaPool,
    reader: &EcdsaBlockReader,
    changes: Seq<EcdsaChangeActionView>,
    j: int,
) -> (i: int)
    requires
        may_validate_dealing_support(crypto, pool, reader, changes),
        0 <= j < changes.len(),
        changes[j] is MoveToValidated,
    ensures
        changes[j] == EcdsaChangeActionView::MoveToValidated(
            pool.unvalidated.dealing_support@[i].0,
        ),
        movable_support(pool, reader, i),
{
    let i = support_change_has_origin(crypto, pool, reader, changes, j).0;
    lemma_first_request(
        reader.requests@,
        pool.unvalidated.dealing_support@[i].1.content.transcript_id,
        0,
    );
    i
}

/// Two supports that are moved in one call differ in their key, so that the
/// validated section holds at most one support of each signer for each
/// dealing after the call if it did before. The places of the two supports
/// are returned.
pub proof fn moved_supports_differ<C: ConsensusCrypto>(
    crypto: &C,
    pool: &EcdsaPool,
    reader: &EcdsaBlockReader,
    changes: Seq<EcdsaChangeActionView>,
    j: int,
    k: int,
) -> (places: (int, int))
    requires
        may_validate_dealing_support(crypto, pool, reader, changes),
        0 <= j < k < changes.len(),
        changes[j] is MoveToValidated,
        changes[k] is MoveToValidated,
    ensures
        changes[j] == EcdsaChangeActionView::MoveToValidated(
            pool.unvalidated.dealing_support@[places.0].0,
        ),
        changes[k] == EcdsaChangeActionView::MoveToValidated(
            pool.unvalidated.dealing_support@[places.1].0,
        ),
        movable_support(pool, reader, places.0),
        movable_support(pool, reader, places.1),
        places.0 != places.1,
        support_keys(pool.unvalidated.dealing_support@)[places.0] != support_keys(
            pool.unvalidated.dealing_support@,
        )[places.1],
{
    let outcomes = choose|outcomes: Seq<Result<(), CryptoError>>|
        support_answers(crypto, pool, reader, outcomes) && changes == emitted(
            #[trigger] support_verdicts(pool, reader, outcomes),
        );
    let verdicts = support_verdicts(pool, reader, outcomes);
    lemma_origin(verdicts, j);
    lemma_origin(verdicts, k);
    lemma_origin_ascends(verdicts, j, k);
    let first = origin(verdicts, j);
    let second = origin(verdicts, k);
    lemma_first_request(
        reader.requests@,
        pool.unvalidated.dealing_support@[first].1.content.transcript_id,
        0,
    );
    lemma_first_request(
        reader.requests@,
        pool.unvalidated.dealing_support@[second].1.content.transcript_id,
        0,
    );
    (first, second)
}

/// The dealing that a change adds, if it adds one.
pub open spec fn added_dealing(action: EcdsaChangeActionView) -> Option<EcdsaDealingView> {
    match action {
        EcdsaChangeActionView::AddToValidated(EcdsaMessageView::EcdsaDealing(dealing)) => Some(
            dealing,
        ),
        _ => None,
    }
}

/// The support that a change adds, if it adds one.
pub open spec fn added_support(action: EcdsaChangeActionView) -> Option<EcdsaDealingSupportView> {
    match action {
        EcdsaChangeActionView::AddToValidated(EcdsaMessageView::EcdsaDealingSupport(support)) => Some(
            support,
        ),
        _ => None,
    }
}

/// Every change of the sending of dealings adds a dealing of this replica, at
/// the height of the block, for a request of the block of which the replica is
/// a dealer and for which the validated section holds no dealing of it. The
/// place of the request is returned.
pub proof fn sent_dealing_is_owed<C: ConsensusCrypto>(
    crypto: &C,
    node_id: NodeId,
    pool: &EcdsaPool,
    reader: &EcdsaBlockReader,
    changes: Seq<EcdsaChangeActionView>,
    j: int,
) -> (k: int)
    requires
        may_send_dealings(crypto, node_id, pool, reader, changes),
        0 <= j < changes.len(),
    ensures
        0 <= k < reader.requests@.len(),
        owes_dealing(node_id, pool, reader.requests@[k]),
        added_dealing(changes[j]).is_some(),
        added_dealing(changes[j]).unwrap().dealer_id == node_id,
        added_dealing(changes[j]).unwrap().requested_height == reader.height,
        added_dealing(changes[j]).unwrap().transcript_id == reader.requests@[k].transcript_id,
{
    let outcomes = choose|outcomes: Seq<Result<Seq<u8>, CryptoError>>|
        own_dealing_answers(crypto, node_id, pool, reader, outcomes) && changes == emitted(
            #[trigger] own_dealing_verdicts(node_id, pool, reader, outcomes),
        );
    let verdicts = own_dealing_verdicts(node_id, pool, reader, outcomes);
    lemma_origin(verdicts, j);
    origin(verdicts, j)
}

/// Two dealings that are sent in one call are for two transcripts, if no two
/// requests of the block are for the same transcript.
pub proof fn sent_dealings_differ<C: ConsensusCrypto>(
    crypto: &C,
    node_id: NodeId,
    pool: &EcdsaPool,
    reader: &EcdsaBlockReader,
    changes: Seq<EcdsaChangeActionView>,
    j: int,
    k: int,
)
    requires
        may_send_dealings(crypto, node_id, pool, reader, changes),
        distinct_requests(reader.requests@),
        0 <= j < k < changes.len(),
    ensures
        added_dealing(changes[j]).is_some(),
        added_dealing(changes[k]).is_some(),
        added_dealing(changes[j]).unwrap().transcript_id != added_dealing(
            changes[k],
        ).unwrap().transcript_id,
{
    let outcomes = choose|outcomes: Seq<Result<Seq<u8>, CryptoError>>|
        own_dealing_answers(crypto, node_id, pool, reader, outcomes) && changes == emitted(
            #[trigger] own_dealing_verdicts(node_id, pool, reader, outcomes),
        );
    let verdicts = own_dealing_verdicts(node_id, pool, reader, outcomes);
    lemma_origin(verdicts, j);
    lemma_origin(verdicts, k);
    lemma_origin_ascends(verdicts, j, k);
}

/// Every change of the sending of supports is about a validated dealing for
/// which this replica owes a support: the block requests its transcript, the
/// replica is a receiver of it, and the validated section holds no support of
/// the replica for the dealing. The change declares that dealing invalid or
/// adds a support that holds the dealing and is signed by this replica. The
/// place of the dealing is returned.
pub proof fn sent_support_is_owed<C: ConsensusCrypto>(
    crypto: &C,
    node_id: NodeId,
    pool: &EcdsaPool,
    reader: &EcdsaBlockReader,
    changes: Seq<EcdsaChangeActionView>,
    j: int,
) -> (i: int)
    requires
        may_send_dealing_support(crypto, node_id, pool, reader, changes),
        0 <= j < changes.len(),
    ensures
        0 <= i < pool.validated.dealings@.len(),
        owes_support(node_id, pool, reader, pool.validated.dealings@[i].1).is_some(),
        match added_support(changes[j]) {
            Some(support) => support.content == pool.validated.dealings@[i].1@
                && support.signature.signer == node_id,
            None => changes[j] is HandleInvalid && target(changes[j]) == Some(
                pool.validated.dealings@[i].0,
            ),
        },
{
    let outcomes = choose|
        outcomes: Seq<(Result<(), CryptoError>, Result<Seq<u8>, CryptoError>)>,
    |
        own_support_answers(crypto, node_id, pool, reader, outcomes) && changes == emitted(
            #[trigger] own_support_verdicts(node_id, pool, reader, outcomes),
        );
    let verdicts = own_support_verdicts(node_id, pool, reader, outcomes);
    lemma_origin(verdicts, j);
    origin(verdicts, j)
}

/// Whether no dealing of the validated section is from above the block.
pub open spec fn validated_dealings_not_above(pool: &EcdsaPool, reader: &EcdsaBlockReader) -> bool {
    forall|i: int|
        0 <= i < pool.validated.dealings@.len() ==> (
        #[trigger] pool.validated.dealings@[i]).1.requested_height.0 <= reader.height.0
}

/// No change of the sending of supports is about a dealing from above the
/// block, if the validated section holds no such dealing. The place of the
/// dealing is returned.
pub proof fn no_future_dealing_is_supported<C: ConsensusCrypto>(
    crypto: &C,
    node_id: NodeId,
    pool: &EcdsaPool,
    reader: &EcdsaBlockReader,
    changes: Seq<EcdsaChangeActionView>,
    j: int,
) -> (i: int)
    requires
        may_send_dealing_support(crypto, node_id, pool, reader, changes),
        validated_dealings_not_above(pool, reader),
        0 <= j < changes.len(),
    ensures
        0 <= i < pool.validated.dealings@.len(),
        pool.validated.dealings@[i].1.requested_height.0 <= reader.height.0,
        match added_support(changes[j]) {
            Some(support) => support.content == pool.validated.dealings@[i].1@,
            None => target(changes[j]) == Some(pool.validated.dealings@[i].0),
        },
{
    sent_support_is_owed(crypto, node_id, pool, reader, changes, j)
}

/// The request under which a support is owed is for the transcript of the
/// dealing, and this replica is one of its receivers.
pub proof fn owed_support_is_authorized(
    node_id: NodeId,
    pool: &EcdsaPool,
    reader: &EcdsaBlockReader,
    i: int,
)
    requires
        0 <= i < pool.validated.dealings@.len(),
        owes_support(node_id, pool, reader, pool.validated.dealings@[i].1).is_some(),
    ensures
        ({
            let dealing = pool.validated.dealings@[i].1;
            let place = owes_support(node_id, pool, reader, dealing).unwrap();
            &&& 0 <= place < reader.requests@.len()
            &&& reader.requests@[place].transcript_id == dealing.transcript_id
            &&& reader.requests@[place].receivers.contains(node_id)
            &&& !pool.validated.has_support(dealing.transcript_id, dealing.dealer_id, node_id)
        }),
{
    lemma_last_request(
        reader.requests@,
        pool.validated.dealings@[i].1.transcript_id,
        reader.requests@.len() as int,
    );
}

/// Two supports that are sent in one call are for two dealings, if no two
/// dealings of the validated section have the same key.
pub proof fn sent_supports_differ<C: ConsensusCrypto>(
    crypto: &C,
    node_id: NodeId,
    pool: &EcdsaPool,
    reader: &EcdsaBlockReader,
    changes: Seq<EcdsaChangeActionView>,
    j: int,
    k: int,
)
    requires
        may_send_dealing_support(crypto, node_id, pool, reader, changes),
        dealing_keys(pool.validated.dealings@).no_duplicates(),
        0 <= j < k < changes.len(),
        added_support(changes[j]).is_some(),
        added_support(changes[k]).is_some(),
    ensures
        ({
            let first = added_support(changes[j]).unwrap().content;
            let second = added_support(changes[k]).unwrap().content;
            first.transcript_id != second.transcript_id || first.dealer_id != second.dealer_id
        }),
{
    let outcomes = choose|
        outcomes: Seq<(Result<(), CryptoError>, Result<Seq<u8>, CryptoError>)>,
    |
        own_support_answers(crypto, node_id, pool, reader, outcomes) && changes == emitted(
            #[trigger] own_support_verdicts(node_id, pool, reader, outcomes),
        );
    let verdicts = own_support_verdicts(node_id, pool, reader, outcomes);
    lemma_origin(verdicts, j);
    lemma_origin(verdicts, k);
    lemma_origin_ascends(verdicts, j, k);
    let first = origin(verdicts, j);
    let second = origin(verdicts, k);
    let keys = dealing_keys(pool.validated.dealings@);
    assert(keys[first] != keys[second]);
}

} // verus!
