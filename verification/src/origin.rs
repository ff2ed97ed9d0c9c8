//! From which verdict each emitted item comes.

use crate::types::{emitted, EcdsaChangeActionView, EcdsaMessageId};
use vstd::prelude::*;

verus! {

/// The entry of the unvalidated section that a change is about, if it is
/// about one.
pub open spec fn target(action: EcdsaChangeActionView) -> Option<EcdsaMessageId> {
    match action {
        EcdsaChangeActionView::AddToValidated(_) => None,
        EcdsaChangeActionView::MoveToValidated(id) => Some(id),
        EcdsaChangeActionView::RemoveUnvalidated(id) => Some(id),
        EcdsaChangeActionView::HandleInvalid(id, _) => Some(id),
    }
}

/// Whether no two entries have the same identifier.
pub open spec fn distinct_ids<T>(entries: Seq<(EcdsaMessageId, T)>) -> bool {
    forall|i: int, j: int| 0 <= i < j < entries.len() ==> entries[i].0 != entries[j].0
}

/// The place of the verdict that emitted the change at place `j`.
pub open spec fn origin<A>(verdicts: Seq<Option<A>>, j: int) -> int
    decreases verdicts.len(),
{
    if verdicts.len() == 0 {
        0
    } else if verdicts.last().is_some() && j == emitted(verdicts.drop_last()).len() {
        verdicts.len() - 1
    } else {
        origin(verdicts.drop_last(), j)
    }
}

/// Every change was emitted by the verdict at its origin, and no more changes
/// are emitted than there are verdicts.
pub proof fn lemma_origin<A>(verdicts: Seq<Option<A>>, j: int)
    requires
        0 <= j < emitted(verdicts).len(),
    ensures
        0 <= origin(verdicts, j) < verdicts.len(),
        verdicts[origin(verdicts, j)] == Some(emitted(verdicts)[j]),
        emitted(verdicts).len() <= verdicts.len(),
    decreases verdicts.len(),
{
    let earlier = verdicts.drop_last();
    lemma_emitted_len(earlier);
    if verdicts.last().is_some() && j == emitted(earlier).len() {
    } else {
        lemma_origin(earlier, j);
    }
}

/// No more changes are emitted than there are verdicts.
pub proof fn lemma_emitted_len<A>(verdicts: Seq<Option<A>>)
    ensures
        emitted(verdicts).len() <= verdicts.len(),
    decreases verdicts.len(),
{
    if verdicts.len() > 0 {
        lemma_emitted_len(verdicts.drop_last());
    }
}

/// Changes stand in the order of the verdicts that emitted them.
pub proof fn lemma_origin_ascends<A>(verdicts: Seq<Option<A>>, j: int, k: int)
    requires
        0 <= j < k < emitted(verdicts).len(),
    ensures
        origin(verdicts, j) < origin(verdicts, k),
    decreases verdicts.len(),
{
    let earlier = verdicts.drop_last();
    if verdicts.last().is_some() && k == emitted(earlier).len() {
        lemma_origin(earlier, j);
    } else {
        lemma_origin_ascends(earlier, j, k);
    }
}

/// Every verdict that is not `None` stands among what is emitted.
pub proof fn verdict_is_emitted<A>(verdicts: Seq<Option<A>>, i: int)
    requires
        0 <= i < verdicts.len(),
        verdicts[i].is_some(),
    ensures
        exists|j: int|
            0 <= j < emitted(verdicts).len() && #[trigger] emitted(verdicts)[j]
                == verdicts[i].unwrap(),
    decreases verdicts.len(),
{
    let earlier = verdicts.drop_last();
    if i == verdicts.len() - 1 {
        let j = emitted(earlier).len() as int;
        assert(emitted(verdicts)[j] == verdicts[i].unwrap());
    } else {
        verdict_is_emitted(earlier, i);
        let j = choose|j: int|
            0 <= j < emitted(earlier).len() && #[trigger] emitted(earlier)[j]
                == earlier[i].unwrap();
        assert(emitted(verdicts)[j] == verdicts[i].unwrap());
    }
}

} // verus!
