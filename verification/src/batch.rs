//! Keys by which the entries of a batch are told apart, and the search for
//! keys that occur more than once in a batch.

use crate::types::{IDkgTranscriptId, NodeId};
use vstd::prelude::*;

verus! {

/// A key with an equality that can be computed.
pub trait BatchKey: Copy {
    /// Whether the two keys are equal.
    fn same(&self, other: &Self) -> (same: bool)
        ensures
            same == (*self == *other),
    ;
}

/// What tells the dealings of a batch apart: the transcript and the dealer.
#[derive(Clone, Copy, Debug, PartialEq, Eq, Structural)]
pub struct DealingKey {
    pub transcript_id: IDkgTranscriptId,
    pub dealer_id: NodeId,
}

impl BatchKey for DealingKey {
    fn same(&self, other: &Self) -> (same: bool) {
        self.transcript_id == other.transcript_id && self.dealer_id == other.dealer_id
    }
}

/// What tells the supports of a batch apart: the transcript, the dealer and
/// the signer.
#[derive(Clone, Copy, Debug, PartialEq, Eq, Structural)]
pub struct SupportKey {
    pub transcript_id: IDkgTranscriptId,
    pub dealer_id: NodeId,
    pub signer: NodeId,
}

impl BatchKey for SupportKey {
    fn same(&self, other: &Self) -> (same: bool) {
        self.transcript_id == other.transcript_id && self.dealer_id == other.dealer_id
            && self.signer == other.signer
    }
}

/// Whether `key` stands at two places of `keys`.
pub open spec fn occurs_twice<K>(keys: Seq<K>, key: K) -> bool {
    exists|i: int, j: int| 0 <= i < j < keys.len() && keys[i] == key && keys[j] == key
}

/// Whether the key at place `i` also stands at another place of `keys`.
pub open spec fn duplicate_in_batch<K>(keys: Seq<K>, i: int) -> bool {
    exists|j: int| 0 <= j < keys.len() && j != i && keys[j] == keys[i]
}

/// A key at some place stands at another place too exactly if it occurs twice.
pub proof fn lemma_duplicate_in_batch<K>(keys: Seq<K>, i: int)
    requires
        0 <= i < keys.len(),
    ensures
        duplicate_in_batch(keys, i) <==> occurs_twice(keys, keys[i]),
{
    if duplicate_in_batch(keys, i) {
        let j = choose|j: int| 0 <= j < keys.len() && j != i && keys[j] == keys[i];
        if j < i {
            assert(0 <= j < i < keys.len() && keys[j] == keys[i] && keys[i] == keys[i]);
        } else {
            assert(0 <= i < j < keys.len() && keys[i] == keys[i] && keys[j] == keys[i]);
        }
    }
    if occurs_twice(keys, keys[i]) {
        let (a, b) = choose|a: int, b: int|
            0 <= a < b < keys.len() && keys[a] == keys[i] && keys[b] == keys[i];
        if a != i {
            assert(0 <= a < keys.len() && a != i && keys[a] == keys[i]);
        } else {
            assert(0 <= b < keys.len() && b != i && keys[b] == keys[i]);
        }
    }
}

/// What one more key changes: it occurs, and it occurs twice if it occurred before.
pub proof fn lemma_push_key<K>(keys: Seq<K>, last: K, key: K)
    ensures
        keys.push(last).contains(key) <==> (keys.contains(key) || key == last),
        occurs_twice(keys.push(last), key) <==> (occurs_twice(keys, key) || (key == last
            && keys.contains(last))),
{
    let longer = keys.push(last);
    if keys.contains(key) {
        let k = choose|k: int| 0 <= k < keys.len() && keys[k] == key;
        assert(longer[k] == key);
    }
    if key == last {
        assert(longer[keys.len() as int] == key);
    }
    if occurs_twice(keys, key) {
        let (a, b) = choose|a: int, b: int|
            0 <= a < b < keys.len() && keys[a] == key && keys[b] == key;
        assert(0 <= a < b < longer.len() && longer[a] == key && longer[b] == key);
    }
    if key == last && keys.contains(last) {
        let k = choose|k: int| 0 <= k < keys.len() && keys[k] == last;
        let end = keys.len() as int;
        assert(0 <= k < end < longer.len() && longer[k] == key && longer[end] == key);
    }
    if occurs_twice(longer, key) {
        let (a, b) = choose|a: int, b: int|
            0 <= a < b < longer.len() && longer[a] == key && longer[b] == key;
        if b < keys.len() {
            assert(0 <= a < b < keys.len() && keys[a] == key && keys[b] == key);
        } else {
            assert(keys[a] == key);
        }
    }
    if longer.contains(key) {
        let k = choose|k: int| 0 <= k < longer.len() && longer[k] == key;
        if k < keys.len() {
            assert(keys[k] == key);
        }
    }
}

/// Whether `key` is one of `keys`.
pub fn contains_key<K: BatchKey>(keys: &Vec<K>, key: &K) -> (found: bool)
    ensures
        found == keys@.contains(*key),
{
    let mut i: usize = 0;
    while i < keys.len()
        invariant
            i <= keys.len(),
            forall|k: int| 0 <= k < i ==> keys@[k] != *key,
        decreases keys.len() - i,
    {
        if keys[i].same(key) {
            return true;
        }
        i += 1;
    }
    false
}

/// The keys that occur more than once in `keys`, each once, in the order in
/// which their second occurrence is met.
pub fn duplicate_keys<K: BatchKey>(keys: &Vec<K>) -> (duplicates: Vec<K>)
    ensures
        forall|key: K| duplicates@.contains(key) <==> occurs_twice(keys@, key),
        duplicates@.no_duplicates(),
{
    let mut seen: Vec<K> = Vec::new();
    let mut duplicates: Vec<K> = Vec::new();
    let mut i: usize = 0;
    while i < keys.len()
        invariant
            i <= keys.len(),
            forall|key: K| seen@.contains(key) <==> keys@.take(i as int).contains(key),
            forall|key: K| duplicates@.contains(key) <==> occurs_twice(keys@.take(i as int), key),
            duplicates@.no_duplicates(),
        decreases keys.len() - i,
    {
        let key = keys[i];
        let ghost head = keys@.take(i as int);
        let ghost old_seen = seen@;
        let ghost old_duplicates = duplicates@;
        proof {
            assert(keys@.take(i + 1) =~= head.push(key));
        }
        if contains_key(&seen, &key) {
            if !contains_key(&duplicates, &key) {
                duplicates.push(key);
            }
        } else {
            seen.push(key);
        }
        proof {
            assert forall|other: K| seen@.contains(other) <==> head.push(key).contains(other) by {
                lemma_push_key(head, key, other);
                lemma_push_key(old_seen, key, other);
            }
            assert forall|other: K| duplicates@.contains(other) <==> occurs_twice(
                head.push(key),
                other,
            ) by {
                lemma_push_key(head, key, other);
                lemma_push_key(old_duplicates, key, other);
            }
        }
        i += 1;
    }
    proof {
        assert(keys@.take(keys.len() as int) =~= keys@);
    }
    duplicates
}

} // verus!
