//! What holds of a capability that gives one answer to each question: the
//! changes of a call are then determined by the pool, the block and the
//! cursor, and a call that proposes nothing is followed by one that proposes
//! nothing.

use crate::block_reader::EcdsaBlockReader;
use crate::crypto::{ConsensusCrypto, CryptoError};
use crate::params::IDkgTranscriptParams;
use crate::pool::EcdsaPool;
use crate::tick::{idle_tick_repeats, is_tick, may_run_phase, tick_after};
use crate::types::{
    emitted, EcdsaChangeActionView, EcdsaDealingSupportView, EcdsaDealingView, NodeId,
    RegistryVersion,
};
use crate::verdict::{
    dealing_answers, dealing_verdicts, own_dealing_answers, own_dealing_verdicts,
    own_support_answers, own_support_verdicts, support_answers, support_verdicts,
};
use vstd::prelude::*;

verus! {

/// Whether the capability gives one answer to each question: what an
/// operation may answer is determined by what it is given.
pub open spec fn answers_are_determined<C: ConsensusCrypto>(crypto: &C) -> bool {
    &&& forall|
        params: IDkgTranscriptParams,
        first: Result<Seq<u8>, CryptoError>,
        second: Result<Seq<u8>, CryptoError>,
    |
        #![trigger crypto.may_create_dealing(params, first), crypto.may_create_dealing(params, second)]
        crypto.may_create_dealing(params, first) && crypto.may_create_dealing(params, second)
            ==> first == second
    &&& forall|
        params: IDkgTranscriptParams,
        dealing: Seq<u8>,
        first: Result<(), CryptoError>,
        second: Result<(), CryptoError>,
    |
        #![trigger crypto.may_verify_dealing_public(params, dealing, first), crypto.may_verify_dealing_public(params, dealing, second)]
        crypto.may_verify_dealing_public(params, dealing, first)
            && crypto.may_verify_dealing_public(params, dealing, second) ==> first == second
    &&& forall|
        params: IDkgTranscriptParams,
        dealing: Seq<u8>,
        first: Result<(), CryptoError>,
        second: Result<(), CryptoError>,
    |
        #![trigger crypto.may_verify_dealing_private(params, dealing, first), crypto.may_verify_dealing_private(params, dealing, second)]
        crypto.may_verify_dealing_private(params, dealing, first)
            && crypto.may_verify_dealing_private(params, dealing, second) ==> first == second
    &&& forall|
        dealing: EcdsaDealingView,
        signer: NodeId,
        version: RegistryVersion,
        first: Result<Seq<u8>, CryptoError>,
        second: Result<Seq<u8>, CryptoError>,
    |
        #![trigger crypto.may_sign(dealing, signer, version, first), crypto.may_sign(dealing, signer, version, second)]
        crypto.may_sign(dealing, signer, version, first) && crypto.may_sign(
            dealing,
            signer,
            version,
            second,
        ) ==> first == second
    &&& forall|
        support: EcdsaDealingSupportView,
        version: RegistryVersion,
        first: Result<(), CryptoError>,
        second: Result<(), CryptoError>,
    |
        #![trigger crypto.may_verify(support, version, first), crypto.may_verify(support, version, second)]
        crypto.may_verify(support, version, first) && crypto.may_verify(support, version, second)
            ==> first == second
}

/// With one answer to each question, a phase gives one change set.
pub proof fn phase_is_determined<C: ConsensusCrypto>(
    crypto: &C,
    node_id: NodeId,
    pool: &EcdsaPool,
    reader: &EcdsaBlockReader,
    phase: int,
    first: Seq<EcdsaChangeActionView>,
    second: Seq<EcdsaChangeActionView>,
)
    requires
        answers_are_determined(crypto),
        may_run_phase(crypto, node_id, pool, reader, phase, first),
        may_run_phase(crypto, node_id, pool, reader, phase, second),
    ensures
        first == second,
{
    if phase == 0 {
        let a = choose|outcomes: Seq<Result<Seq<u8>, CryptoError>>|
            own_dealing_answers(crypto, node_id, pool, reader, outcomes) && first == emitted(
                #[trigger] own_dealing_verdicts(node_id, pool, reader, outcomes),
            );
        let b = choose|outcomes: Seq<Result<Seq<u8>, CryptoError>>|
            own_dealing_answers(crypto, node_id, pool, reader, outcomes) && second == emitted(
                #[trigger] own_dealing_verdicts(node_id, pool, reader, outcomes),
            );
        assert forall|k: int| 0 <= k < a.len() implies own_dealing_verdicts(
            node_id,
            pool,
            reader,
            a,
        )[k] == own_dealing_verdicts(node_id, pool, reader, b)[k] by {
            let (x, y) = (a[k], b[k]);
        }
        assert(own_dealing_verdicts(node_id, pool, reader, a) =~= own_dealing_verdicts(
            node_id,
            pool,
            reader,
            b,
        ));
    } else if phase == 1 {
        let a = choose|outcomes: Seq<Result<(), CryptoError>>|
            dealing_answers(crypto, pool, reader, outcomes) && first == emitted(
                #[trigger] dealing_verdicts(pool, reader, outcomes),
            );
        let b = choose|outcomes: Seq<Result<(), CryptoError>>|
            dealing_answers(crypto, pool, reader, outcomes) && second == emitted(
                #[trigger] dealing_verdicts(pool, reader, outcomes),
            );
        assert forall|i: int| 0 <= i < a.len() implies dealing_verdicts(pool, reader, a)[i]
            == dealing_verdicts(pool, reader, b)[i] by {
            let (x, y) = (a[i], b[i]);
        }
        assert(dealing_verdicts(pool, reader, a) =~= dealing_verdicts(pool, reader, b));
    } else if phase == 2 {
        let a = choose|outcomes: Seq<(Result<(), CryptoError>, Result<Seq<u8>, CryptoError>)>|
            own_support_answers(crypto, node_id, pool, reader, outcomes) && first == emitted(
                #[trigger] own_support_verdicts(node_id, pool, reader, outcomes),
            );
        let b = choose|outcomes: Seq<(Result<(), CryptoError>, Result<Seq<u8>, CryptoError>)>|
            own_support_answers(crypto, node_id, pool, reader, outcomes) && second == emitted(
                #[trigger] own_support_verdicts(node_id, pool, reader, outcomes),
            );
        assert forall|i: int| 0 <= i < a.len() implies own_support_verdicts(
            node_id,
            pool,
            reader,
            a,
        )[i] == own_support_verdicts(node_id, pool, reader, b)[i] by {
            let (x, y) = (a[i], b[i]);
        }
        assert(own_support_verdicts(node_id, pool, reader, a) =~= own_support_verdicts(
            node_id,
            pool,
            reader,
            b,
        ));
    } else {
        let a = choose|outcomes: Seq<Result<(), CryptoError>>|
            support_answers(crypto, pool, reader, outcomes) && first == emitted(
                #[trigger] support_verdicts(pool, reader, outcomes),
            );
        let b = choose|outcomes: Seq<Result<(), CryptoError>>|
            support_answers(crypto, pool, reader, outcomes) && second == emitted(
                #[trigger] support_verdicts(pool, reader, outcomes),
            );
        assert forall|i: int| 0 <= i < a.len() implies support_verdicts(pool, reader, a)[i]
            == support_verdicts(pool, reader, b)[i] by {
            let (x, y) = (a[i], b[i]);
        }
        assert(support_verdicts(pool, reader, a) =~= support_verdicts(pool, reader, b));
    }
}

/// If a call proposes nothing, a second call on the same pool and block
/// proposes nothing either and leaves the cursor where it was, provided that
/// the capability gives one answer to each question.
pub proof fn idle_call_repeats<C: ConsensusCrypto>(
    crypto: &C,
    node_id: NodeId,
    pool: &EcdsaPool,
    reader: &EcdsaBlockReader,
    cursor: int,
    next: int,
    changes: Seq<EcdsaChangeActionView>,
    after: int,
)
    requires
        answers_are_determined(crypto),
        0 <= cursor < 4,
        is_tick(crypto, node_id, pool, reader, cursor, Seq::empty(), next),
        is_tick(crypto, node_id, pool, reader, next, changes, after),
    ensures
        changes.len() == 0,
        next == cursor,
        after == cursor,
{
    idle_tick_repeats(crypto, node_id, pool, reader, cursor, next);
    let skipped = choose|skipped: int| #[trigger]
        tick_after(crypto, node_id, pool, reader, next, skipped, changes, after);
    if skipped < 4 {
        let phase = (next + skipped) % 4;
        phase_is_determined(crypto, node_id, pool, reader, phase, changes, Seq::empty());
    }
}

/// With one answer to each question, the changes of a call and the cursor
/// that it leaves are determined by the pool, the block and the cursor.
pub proof fn call_is_determined<C: ConsensusCrypto>(
    crypto: &C,
    node_id: NodeId,
    pool: &EcdsaPool,
    reader: &EcdsaBlockReader,
    cursor: int,
    first: (Seq<EcdsaChangeActionView>, int),
    second: (Seq<EcdsaChangeActionView>, int),
)
    requires
        answers_are_determined(crypto),
        0 <= cursor < 4,
        is_tick(crypto, node_id, pool, reader, cursor, first.0, first.1),
        is_tick(crypto, node_id, pool, reader, cursor, second.0, second.1),
    ensures
        first == second,
{
    let a = choose|skipped: int| #[trigger]
        tick_after(crypto, node_id, pool, reader, cursor, skipped, first.0, first.1);
    let b = choose|skipped: int| #[trigger]
        tick_after(crypto, node_id, pool, reader, cursor, skipped, second.0, second.1);
    if a < b {
        phase_is_determined(crypto, node_id, pool, reader, (cursor + a) % 4, first.0, Seq::empty());
    } else if b < a {
        phase_is_determined(crypto, node_id, pool, reader, (cursor + b) % 4, second.0, Seq::empty());
    } else if a < 4 {
        phase_is_determined(crypto, node_id, pool, reader, (cursor + a) % 4, first.0, second.0);
    } else {
        assert(first.0 =~= second.0);
    }
}

} // verus!
