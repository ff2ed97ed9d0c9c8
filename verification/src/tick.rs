//! What one call of the engine does, stated over its four phases.

use crate::block_reader::EcdsaBlockReader;
use crate::crypto::ConsensusCrypto;
use crate::pool::EcdsaPool;
use crate::types::{EcdsaChangeActionView, NodeId};
use crate::verdict::{
    may_send_dealing_support, may_send_dealings, may_validate_dealing_support,
    may_validate_dealings,
};
use vstd::prelude::*;

verus! {

/// The number of phases.
pub const PHASES: usize = 4;

/// Whether `changes` is what the phase may give: sending dealings, validating
/// dealings, sending supports and validating supports, in this order.
pub open spec fn may_run_phase<C: ConsensusCrypto>(
    crypto: &C,
    node_id: NodeId,
    pool: &EcdsaPool,
    reader: &EcdsaBlockReader,
    phase: int,
    changes: Seq<EcdsaChangeActionView>,
) -> bool {
    if phase == 0 {
        may_send_dealings(crypto, node_id, pool, reader, changes)
    } else if phase == 1 {
        may_validate_dealings(crypto, pool, reader, changes)
    } else if phase == 2 {
        may_send_dealing_support(crypto, node_id, pool, reader, changes)
    } else if phase == 3 {
        may_validate_dealing_support(crypto, pool, reader, changes)
    } else {
        false
    }
}

/// Whether the phase has work whatever the cryptographic capability answers:
/// it cannot give an empty change set.
pub open spec fn phase_has_work<C: ConsensusCrypto>(
    crypto: &C,
    node_id: NodeId,
    pool: &EcdsaPool,
    reader: &EcdsaBlockReader,
    phase: int,
) -> bool {
    !may_run_phase(crypto, node_id, pool, reader, phase, Seq::empty())
}

/// What a call does that starts at the phase `cursor` and passes over
/// `skipped` phases: each of these gave nothing. If a phase is left, it gave
/// `changes`, which hold something, and the next call starts at the phase
/// behind it. If all four were passed over, `changes` hold nothing and the
/// next call starts where this one did.
pub open spec fn tick_after<C: ConsensusCrypto>(
    crypto: &C,
    node_id: NodeId,
    pool: &EcdsaPool,
    reader: &EcdsaBlockReader,
    cursor: int,
    skipped: int,
    changes: Seq<EcdsaChangeActionView>,
    next: int,
) -> bool {
    &&& 0 <= skipped <= 4
    &&& forall|j: int|
        0 <= j < skipped ==> may_run_phase(
            crypto,
            node_id,
            pool,
            reader,
            #[trigger] ((cursor + j) % 4),
            Seq::empty(),
        )
    &&& if skipped < 4 {
        &&& changes.len() > 0
        &&& may_run_phase(crypto, node_id, pool, reader, (cursor + skipped) % 4, changes)
        &&& next == (cursor + skipped + 1) % 4
    } else {
        &&& changes.len() == 0
        &&& next == cursor
    }
}

/// Whether a call that starts at the phase `cursor` may give `changes` and
/// leave the cursor at `next`.
pub open spec fn is_tick<C: ConsensusCrypto>(
    crypto: &C,
    node_id: NodeId,
    pool: &EcdsaPool,
    reader: &EcdsaBlockReader,
    cursor: int,
    changes: Seq<EcdsaChangeActionView>,
    next: int,
) -> bool {
    exists|skipped: int| #[trigger] tick_after(crypto, node_id, pool, reader, cursor, skipped, changes, next)
}

/// A call that proposes nothing leaves the cursor where it was, so that the
/// next call meets the same state: it proposes nothing again if the
/// capability answers as before.
pub proof fn idle_tick_repeats<C: ConsensusCrypto>(
    crypto: &C,
    node_id: NodeId,
    pool: &EcdsaPool,
    reader: &EcdsaBlockReader,
    cursor: int,
    next: int,
)
    requires
        0 <= cursor < 4,
        is_tick(crypto, node_id, pool, reader, cursor, Seq::empty(), next),
    ensures
        next == cursor,
        forall|phase: int| 0 <= phase < 4 ==> may_run_phase(crypto, node_id, pool, reader, phase, Seq::empty()),
        is_tick(crypto, node_id, pool, reader, next, Seq::empty(), next),
{
    let skipped = choose|skipped: int| #[trigger]
        tick_after(crypto, node_id, pool, reader, cursor, skipped, Seq::empty(), next);
    assert(skipped == 4);
    assert forall|phase: int| 0 <= phase < 4 implies may_run_phase(
        crypto,
        node_id,
        pool,
        reader,
        phase,
        Seq::empty(),
    ) by {
        let j = (phase - cursor + 4) % 4;
        assert((cursor + j) % 4 == phase);
    }
}

/// Where no phase can give a change, whatever the capability answers, every
/// call proposes nothing and leaves the cursor where it was.
pub proof fn idle_engine_stays_idle<C: ConsensusCrypto>(
    crypto: &C,
    node_id: NodeId,
    pool: &EcdsaPool,
    reader: &EcdsaBlockReader,
    cursor: int,
    changes: Seq<EcdsaChangeActionView>,
    next: int,
)
    requires
        0 <= cursor < 4,
        forall|phase: int, given: Seq<EcdsaChangeActionView>|
            0 <= phase < 4 && #[trigger] may_run_phase(crypto, node_id, pool, reader, phase, given)
                ==> given.len() == 0,
        is_tick(crypto, node_id, pool, reader, cursor, changes, next),
    ensures
        changes.len() == 0,
        next == cursor,
{
    let skipped = choose|skipped: int| #[trigger]
        tick_after(crypto, node_id, pool, reader, cursor, skipped, changes, next);
    if skipped < 4 {
        assert(0 <= (cursor + skipped) % 4 < 4);
    }
}

/// Where the phase at the cursor has work, it is the phase that is served,
/// and the cursor moves on by one.
pub proof fn busy_phase_is_served<C: ConsensusCrypto>(
    crypto: &C,
    node_id: NodeId,
    pool: &EcdsaPool,
    reader: &EcdsaBlockReader,
    cursor: int,
    changes: Seq<EcdsaChangeActionView>,
    next: int,
)
    requires
        0 <= cursor < 4,
        phase_has_work(crypto, node_id, pool, reader, cursor),
        is_tick(crypto, node_id, pool, reader, cursor, changes, next),
    ensures
        changes.len() > 0,
        may_run_phase(crypto, node_id, pool, reader, cursor, changes),
        next == (cursor + 1) % 4,
{
    let skipped = choose|skipped: int| #[trigger]
        tick_after(crypto, node_id, pool, reader, cursor, skipped, changes, next);
    if skipped > 0 {
        assert((cursor + 0) % 4 == cursor);
    }
}

/// Whether `cursors` and `changes` record consecutive calls on one pool and
/// one block: each call starts at the cursor that the call before left.
pub open spec fn is_run<C: ConsensusCrypto>(
    crypto: &C,
    node_id: NodeId,
    pool: &EcdsaPool,
    reader: &EcdsaBlockReader,
    cursors: Seq<int>,
    changes: Seq<Seq<EcdsaChangeActionView>>,
) -> bool {
    &&& cursors.len() == changes.len() + 1
    &&& 0 <= cursors[0] < 4
    &&& forall|t: int|
        0 <= t < changes.len() ==> is_tick(
            crypto,
            node_id,
            pool,
            reader,
            cursors[t],
            #[trigger] changes[t],
            cursors[t + 1],
        )
}

/// How many of the first `ticks` calls started at `phase`.
pub open spec fn times_served(cursors: Seq<int>, ticks: int, phase: int) -> int
    decreases ticks,
{
    if ticks <= 0 {
        0
    } else {
        times_served(cursors, ticks - 1, phase) + if cursors[ticks - 1] == phase {
            1int
        } else {
            0int
        }
    }
}

/// Of cursors that go round the four phases, each phase has its share.
pub proof fn lemma_times_served(cursors: Seq<int>, ticks: int, phase: int)
    requires
        0 <= ticks < cursors.len(),
        0 <= cursors[0] < 4,
        0 <= phase < 4,
        forall|t: int| 0 <= t < ticks ==> #[trigger] cursors[t] == (cursors[0] + t) % 4,
    ensures
        times_served(cursors, ticks, phase) == (ticks + 3 - (phase - cursors[0] + 4) % 4) / 4,
        times_served(cursors, ticks, phase) >= ticks / 4,
    decreases ticks,
{
    if ticks > 0 {
        lemma_times_served(cursors, ticks - 1, phase);
        assert(cursors[ticks - 1] == (cursors[0] + (ticks - 1)) % 4);
    }
}

/// Over consecutive calls on one pool and one block in which each of the four
/// phases has work, each call serves the phase at its cursor, and each phase
/// is served in at least a quarter of the calls, rounded down.
pub proof fn fair_progress<C: ConsensusCrypto>(
    crypto: &C,
    node_id: NodeId,
    pool: &EcdsaPool,
    reader: &EcdsaBlockReader,
    cursors: Seq<int>,
    changes: Seq<Seq<EcdsaChangeActionView>>,
    phase: int,
)
    requires
        is_run(crypto, node_id, pool, reader, cursors, changes),
        forall|each: int| 0 <= each < 4 ==> phase_has_work(crypto, node_id, pool, reader, each),
        0 <= phase < 4,
    ensures
        forall|t: int|
            0 <= t < changes.len() ==> 0 <= cursors[t] < 4 && (#[trigger] changes[t]).len() > 0
                && may_run_phase(crypto, node_id, pool, reader, cursors[t], changes[t]),
        times_served(cursors, changes.len() as int, phase) >= changes.len() / 4,
{
    lemma_run_cursors(crypto, node_id, pool, reader, cursors, changes, changes.len() as int);
    assert forall|t: int| 0 <= t < changes.len() implies 0 <= cursors[t] < 4 && (
    #[trigger] changes[t]).len() > 0 && may_run_phase(
        crypto,
        node_id,
        pool,
        reader,
        cursors[t],
        changes[t],
    ) by {
        assert(cursors[t] == (cursors[0] + t) % 4);
        busy_phase_is_served(crypto, node_id, pool, reader, cursors[t], changes[t], cursors[t + 1]);
    }
    lemma_times_served(cursors, changes.len() as int, phase);
}

/// In a run in which each phase has work, the cursor moves on by one with
/// each call.
pub proof fn lemma_run_cursors<C: ConsensusCrypto>(
    crypto: &C,
    node_id: NodeId,
    pool: &EcdsaPool,
    reader: &EcdsaBlockReader,
    cursors: Seq<int>,
    changes: Seq<Seq<EcdsaChangeActionView>>,
    upto: int,
)
    requires
        is_run(crypto, node_id, pool, reader, cursors, changes),
        forall|each: int| 0 <= each < 4 ==> phase_has_work(crypto, node_id, pool, reader, each),
        0 <= upto <= changes.len(),
    ensures
        forall|t: int| 0 <= t <= upto ==> #[trigger] cursors[t] == (cursors[0] + t) % 4,
    decreases upto,
{
    if upto > 0 {
        lemma_run_cursors(crypto, node_id, pool, reader, cursors, changes, upto - 1);
        let before = upto - 1;
        assert(cursors[before] == (cursors[0] + before) % 4);
        assert(is_tick(crypto, node_id, pool, reader, cursors[before], changes[before], cursors[before + 1]));
        busy_phase_is_served(
            crypto,
            node_id,
            pool,
            reader,
            cursors[before],
            changes[before],
            cursors[before + 1],
        );
    }
}

} // verus!
