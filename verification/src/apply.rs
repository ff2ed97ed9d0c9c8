//! What the validated section can hold once the pool has applied a change
//! set, and that it then holds every key at most once.
//!
//! The pool makes the changes. Here stands only what they can bring into the
//! validated section: a change that adds a message brings that message, and a
//! change that moves an entry brings the unvalidated entry of that identifier.
//! The other changes take entries away.

use crate::batch::{DealingKey, SupportKey};
use crate::block_reader::{distinct_requests, EcdsaBlockReader};
use crate::crypto::ConsensusCrypto;
use crate::laws::{
    dealing_change_has_origin, moved_dealing_is_movable, moved_dealings_differ,
    moved_support_is_movable, moved_supports_differ, owed_support_is_authorized,
    sent_dealing_is_owed, sent_dealings_differ, sent_support_is_owed, sent_supports_differ,
    support_change_has_origin,
};
use crate::origin::{distinct_ids, lemma_origin, lemma_origin_ascends, origin};
use crate::pool::EcdsaPool;
use crate::tick::{is_tick, may_run_phase, tick_after};
use crate::types::{emitted, EcdsaChangeActionView, EcdsaMessageId, EcdsaMessageView, NodeId};
use crate::verdict::{
    dealing_key, dealing_keys, lemma_valid_dealings, lemma_valid_supports, support_key,
    support_keys,
};
use vstd::prelude::*;

verus! {

/// Whether the pool gave each unvalidated entry an identifier of its own.
pub open spec fn distinct_unvalidated_ids(pool: &EcdsaPool) -> bool {
    &&& distinct_ids(pool.unvalidated.dealings@)
    &&& distinct_ids(pool.unvalidated.dealing_support@)
    &&& forall|i: int, j: int|
        0 <= i < pool.unvalidated.dealings@.len() && 0 <= j
            < pool.unvalidated.dealing_support@.len() ==> (
        #[trigger] pool.unvalidated.dealings@[i]).0 != (
        #[trigger] pool.unvalidated.dealing_support@[j]).0
}

/// Whether the unvalidated section holds a dealing of the identifier `id`.
pub open spec fn holds_dealing(pool: &EcdsaPool, id: EcdsaMessageId) -> bool {
    exists|i: int|
        0 <= i < pool.unvalidated.dealings@.len() && (#[trigger] pool.unvalidated.dealings@[i]).0
            == id
}

/// Whether the unvalidated section holds a support of the identifier `id`.
pub open spec fn holds_support(pool: &EcdsaPool, id: EcdsaMessageId) -> bool {
    exists|i: int|
        0 <= i < pool.unvalidated.dealing_support@.len() && (
        #[trigger] pool.unvalidated.dealing_support@[i]).0 == id
}

/// The key of the dealing that a change brings into the validated section, if
/// it brings one.
pub open spec fn brought_dealing(pool: &EcdsaPool, change: EcdsaChangeActionView) -> Option<
    DealingKey,
> {
    match change {
        EcdsaChangeActionView::AddToValidated(EcdsaMessageView::EcdsaDealing(dealing)) => Some(
            DealingKey { transcript_id: dealing.transcript_id, dealer_id: dealing.dealer_id },
        ),
        EcdsaChangeActionView::MoveToValidated(id) => if holds_dealing(pool, id) {
            let i = choose|i: int|
                0 <= i < pool.unvalidated.dealings@.len() && (
                #[trigger] pool.unvalidated.dealings@[i]).0 == id;
            Some(dealing_key(pool.unvalidated.dealings@[i].1))
        } else {
            None
        },
        _ => None,
    }
}

/// The key of the support that a change brings into the validated section, if
/// it brings one.
pub open spec fn brought_support(pool: &EcdsaPool, change: EcdsaChangeActionView) -> Option<
    SupportKey,
> {
    match change {
        EcdsaChangeActionView::AddToValidated(EcdsaMessageView::EcdsaDealingSupport(support)) => Some(
            SupportKey {
                transcript_id: support.content.transcript_id,
                dealer_id: support.content.dealer_id,
                signer: support.signature.signer,
            },
        ),
        EcdsaChangeActionView::MoveToValidated(id) => if holds_support(pool, id) {
            let i = choose|i: int|
                0 <= i < pool.unvalidated.dealing_support@.len() && (
                #[trigger] pool.unvalidated.dealing_support@[i]).0 == id;
            Some(support_key(pool.unvalidated.dealing_support@[i].1))
        } else {
            None
        },
        _ => None,
    }
}

/// The keys of the dealings that the changes bring, in their order.
pub open spec fn brought_dealings(pool: &EcdsaPool, changes: Seq<EcdsaChangeActionView>) -> Seq<
    DealingKey,
> {
    emitted(changes.map_values(|change: EcdsaChangeActionView| brought_dealing(pool, change)))
}

/// The keys of the supports that the changes bring, in their order.
pub open spec fn brought_supports(pool: &EcdsaPool, changes: Seq<EcdsaChangeActionView>) -> Seq<
    SupportKey,
> {
    emitted(changes.map_values(|change: EcdsaChangeActionView| brought_support(pool, change)))
}

/// The keys of the dealings that the validated section can hold after the
/// changes: those that it held and those that the changes bring.
pub open spec fn dealing_keys_after(pool: &EcdsaPool, changes: Seq<EcdsaChangeActionView>) -> Seq<
    DealingKey,
> {
    dealing_keys(pool.validated.dealings@) + brought_dealings(pool, changes)
}

/// The keys of the supports that the validated section can hold after the
/// changes: those that it held and those that the changes bring.
pub open spec fn support_keys_after(pool: &EcdsaPool, changes: Seq<EcdsaChangeActionView>) -> Seq<
    SupportKey,
> {
    support_keys(pool.validated.dealing_support@) + brought_supports(pool, changes)
}

/// Two sequences without duplicates that share no item give one without
/// duplicates when joined.
pub proof fn lemma_joined_unique<K>(held: Seq<K>, brought: Seq<K>)
    requires
        held.no_duplicates(),
        brought.no_duplicates(),
        forall|q: int| 0 <= q < brought.len() ==> !held.contains(#[trigger] brought[q]),
    ensures
        (held + brought).no_duplicates(),
{
    let joined = held + brought;
    assert forall|i: int, j: int| 0 <= i < joined.len() && 0 <= j < joined.len() && i
        != j implies joined[i] != joined[j] by {
        if i < held.len() && j >= held.len() {
            assert(joined[j] == brought[j - held.len()]);
            assert(held[i] == joined[i]);
        } else if j < held.len() && i >= held.len() {
            assert(joined[i] == brought[i - held.len()]);
            assert(held[j] == joined[j]);
        } else if i >= held.len() {
            assert(joined[i] == brought[i - held.len()]);
            assert(joined[j] == brought[j - held.len()]);
        }
    }
}

/// Whether the item at place `q` of what the changes bring is new: the
/// validated section does not hold it, and the changes do not bring it again
/// later.
pub open spec fn is_new<K>(held: Seq<K>, brought: Seq<K>, q: int) -> bool {
    &&& !held.contains(brought[q])
    &&& forall|r: int| q < r < brought.len() ==> brought[q] != brought[r]
}

/// The dealings that a phase brings into the validated section are new: the
/// section holds no dealing of their key, and no two of them have one key.
pub proof fn brought_dealing_is_new<C: ConsensusCrypto>(
    crypto: &C,
    node_id: NodeId,
    pool: &EcdsaPool,
    reader: &EcdsaBlockReader,
    phase: int,
    changes: Seq<EcdsaChangeActionView>,
    q: int,
)
    requires
        may_run_phase(crypto, node_id, pool, reader, phase, changes),
        distinct_unvalidated_ids(pool),
        distinct_requests(reader.requests@),
        0 <= q < brought_dealings(pool, changes).len(),
    ensures
        is_new(dealing_keys(pool.validated.dealings@), brought_dealings(pool, changes), q),
{
    let brought = changes.map_values(|change: EcdsaChangeActionView| brought_dealing(pool, change));
    let keys = brought_dealings(pool, changes);
    lemma_origin(brought, q);
    let j = origin(brought, q);
    lemma_valid_dealings(pool, keys[q]);
    assert(brought[j] == brought_dealing(pool, changes[j]));
    if phase == 0 {
        sent_dealing_is_owed(crypto, node_id, pool, reader, changes, j);
    } else if phase == 1 {
        dealing_change_has_origin(crypto, pool, reader, changes, j);
        let i = moved_dealing_is_movable(crypto, pool, reader, changes, j);
    } else if phase == 2 {
        sent_support_is_owed(crypto, node_id, pool, reader, changes, j);
    } else {
        support_change_has_origin(crypto, pool, reader, changes, j);
    }
    assert forall|r: int| q < r < keys.len() implies keys[q] != keys[r] by {
        lemma_origin(brought, r);
        lemma_origin_ascends(brought, q, r);
        let k = origin(brought, r);
        assert(brought[k] == brought_dealing(pool, changes[k]));
        if phase == 0 {
            sent_dealings_differ(crypto, node_id, pool, reader, changes, j, k);
        } else if phase == 1 {
            dealing_change_has_origin(crypto, pool, reader, changes, k);
            moved_dealings_differ(crypto, pool, reader, changes, j, k);
        }
    }
}

/// The supports that a phase brings into the validated section are new: the
/// section holds no support of their key, and no two of them have one key.
pub proof fn brought_support_is_new<C: ConsensusCrypto>(
    crypto: &C,
    node_id: NodeId,
    pool: &EcdsaPool,
    reader: &EcdsaBlockReader,
    phase: int,
    changes: Seq<EcdsaChangeActionView>,
    q: int,
)
    requires
        may_run_phase(crypto, node_id, pool, reader, phase, changes),
        distinct_unvalidated_ids(pool),
        dealing_keys(pool.validated.dealings@).no_duplicates(),
        0 <= q < brought_supports(pool, changes).len(),
    ensures
        is_new(support_keys(pool.validated.dealing_support@), brought_supports(pool, changes), q),
{
    let brought = changes.map_values(|change: EcdsaChangeActionView| brought_support(pool, change));
    let keys = brought_supports(pool, changes);
    lemma_origin(brought, q);
    let j = origin(brought, q);
    lemma_valid_supports(pool, keys[q]);
    assert(brought[j] == brought_support(pool, changes[j]));
    if phase == 0 {
        sent_dealing_is_owed(crypto, node_id, pool, reader, changes, j);
    } else if phase == 1 {
        dealing_change_has_origin(crypto, pool, reader, changes, j);
    } else if phase == 2 {
        let i = sent_support_is_owed(crypto, node_id, pool, reader, changes, j);
        owed_support_is_authorized(node_id, pool, reader, i);
    } else {
        support_change_has_origin(crypto, pool, reader, changes, j);
        let i = moved_support_is_movable(crypto, pool, reader, changes, j);
    }
    assert forall|r: int| q < r < keys.len() implies keys[q] != keys[r] by {
        lemma_origin(brought, r);
        lemma_origin_ascends(brought, q, r);
        let k = origin(brought, r);
        assert(brought[k] == brought_support(pool, changes[k]));
        if phase == 2 {
            sent_support_is_owed(crypto, node_id, pool, reader, changes, k);
            sent_supports_differ(crypto, node_id, pool, reader, changes, j, k);
        } else if phase == 3 {
            support_change_has_origin(crypto, pool, reader, changes, k);
            moved_supports_differ(crypto, pool, reader, changes, j, k);
        }
    }
}

/// After the pool has applied the changes of a call, the validated section
/// holds at most one dealing of each dealer for each transcript, and at most
/// one support of each signer for each dealing, if it did before, if each
/// unvalidated entry has an identifier of its own, and if no two requests of
/// the block are for one transcript.
pub proof fn validated_section_stays_unique<C: ConsensusCrypto>(
    crypto: &C,
    node_id: NodeId,
    pool: &EcdsaPool,
    reader: &EcdsaBlockReader,
    cursor: int,
    changes: Seq<EcdsaChangeActionView>,
    next: int,
)
    requires
        is_tick(crypto, node_id, pool, reader, cursor, changes, next),
        dealing_keys(pool.validated.dealings@).no_duplicates(),
        support_keys(pool.validated.dealing_support@).no_duplicates(),
        distinct_unvalidated_ids(pool),
        distinct_requests(reader.requests@),
    ensures
        dealing_keys_after(pool, changes).no_duplicates(),
        support_keys_after(pool, changes).no_duplicates(),
{
    let skipped = choose|skipped: int| #[trigger]
        tick_after(crypto, node_id, pool, reader, cursor, skipped, changes, next);
    let dealings = brought_dealings(pool, changes);
    let supports = brought_supports(pool, changes);
    if skipped < 4 {
        let phase = (cursor + skipped) % 4;
        assert forall|q: int| 0 <= q < dealings.len() implies is_new(
            dealing_keys(pool.validated.dealings@),
            dealings,
            q,
        ) by {
            brought_dealing_is_new(crypto, node_id, pool, reader, phase, changes, q);
        }
        assert forall|q: int| 0 <= q < supports.len() implies is_new(
            support_keys(pool.validated.dealing_support@),
            supports,
            q,
        ) by {
            brought_support_is_new(crypto, node_id, pool, reader, phase, changes, q);
        }
    } else {
        assert(changes.map_values(|change: EcdsaChangeActionView| brought_dealing(pool, change))
            =~= Seq::empty());
        assert(changes.map_values(|change: EcdsaChangeActionView| brought_support(pool, change))
            =~= Seq::empty());
    }
    assert forall|q: int, r: int| 0 <= q < dealings.len() && 0 <= r < dealings.len() && q
        != r implies dealings[q] != dealings[r] by {
        if q < r {
            assert(is_new(dealing_keys(pool.validated.dealings@), dealings, q));
        } else {
            assert(is_new(dealing_keys(pool.validated.dealings@), dealings, r));
        }
    }
    assert forall|q: int, r: int| 0 <= q < supports.len() && 0 <= r < supports.len() && q
        != r implies supports[q] != supports[r] by {
        if q < r {
            assert(is_new(support_keys(pool.validated.dealing_support@), supports, q));
        } else {
            assert(is_new(support_keys(pool.validated.dealing_support@), supports, r));
        }
    }
    assert forall|q: int| 0 <= q < dealings.len() implies !dealing_keys(
        pool.validated.dealings@,
    ).contains(#[trigger] dealings[q]) by {
        assert(is_new(dealing_keys(pool.validated.dealings@), dealings, q));
    }
    assert forall|q: int| 0 <= q < supports.len() implies !support_keys(
        pool.validated.dealing_support@,
    ).contains(#[trigger] supports[q]) by {
        assert(is_new(support_keys(pool.validated.dealing_support@), supports, q));
    }
    lemma_joined_unique(dealing_keys(pool.validated.dealings@), dealings);
    lemma_joined_unique(support_keys(pool.validated.dealing_support@), supports);
}

} // verus!
