//! Transcript parameters: who deals, who receives, and under which registry version.

use crate::types::{AlgorithmId, IDkgTranscriptId, IDkgTranscriptOperation, NodeId, RegistryVersion};
use vstd::prelude::*;

verus! {

/// Whether the node numbers of a sequence strictly ascend.
pub open spec fn ascending(nodes: Seq<NodeId>) -> bool {
    forall|i: int, j: int| 0 <= i < j < nodes.len() ==> nodes[i].0 < nodes[j].0
}

/// An ordered set of replicas, kept as a strictly ascending list.
#[derive(Clone, Debug, PartialEq, Eq)]
pub struct NodeSet {
    nodes: Vec<NodeId>,
}

impl View for NodeSet {
    type V = Seq<NodeId>;

    closed spec fn view(&self) -> Seq<NodeId> {
        self.nodes@
    }
}

impl NodeSet {
    /// The members ascend, so none occurs twice.
    pub open spec fn wf(&self) -> bool {
        ascending(self@)
    }

    /// Whether `node` is a member.
    pub open spec fn contains(&self, node: NodeId) -> bool {
        self@.contains(node)
    }

    /// The set without members.
    pub fn new() -> (set: NodeSet)
        ensures
            set@ == Seq::<NodeId>::empty(),
            set.wf(),
    {
        NodeSet { nodes: Vec::new() }
    }

    /// The number of members.
    pub fn len(&self) -> (count: usize)
        ensures
            count == self@.len(),
    {
        self.nodes.len()
    }

    /// Adds `node` at its place in the order, unless it is a member already.
    /// Returns whether it was added.
    pub fn insert(&mut self, node: NodeId) -> (added: bool)
        requires
            old(self).wf(),
        ensures
            final(self).wf(),
            added == !old(self).contains(node),
            !added ==> final(self)@ == old(self)@,
            added ==> final(self)@.len() == old(self)@.len() + 1,
            forall|other: NodeId|
                final(self).contains(other) <==> (old(self).contains(other) || other == node),
    {
        let mut at: usize = 0;
        while at < self.nodes.len() && self.nodes[at].0 < node.0
            invariant
                at <= self.nodes.len(),
                self.nodes@ == old(self).nodes@,
                forall|k: int| 0 <= k < at ==> self.nodes@[k].0 < node.0,
            decreases self.nodes.len() - at,
        {
            at += 1;
        }
        let ghost before = self.nodes@;
        if at < self.nodes.len() && self.nodes[at].0 == node.0 {
            proof {
                assert(before[at as int] == node);
            }
            false
        } else {
            self.nodes.insert(at, node);
            proof {
                let after = self.nodes@;
                before.insert_ensures(at as int, node);
                assert(ascending(before));
                assert forall|k: int| at <= k < before.len() implies before[k].0 > node.0 by {
                    if k > at {
                        assert(before[at as int].0 < before[k].0);
                    }
                }
                assert forall|i: int, j: int| 0 <= i < j < after.len() implies after[i].0
                    < after[j].0 by {
                    if i < at && j > at {
                        assert(after[j] == before[j - 1]);
                    } else if i > at {
                        assert(after[i] == before[i - 1]);
                        assert(after[j] == before[j - 1]);
                    }
                }
                assert(!before.contains(node)) by {
                    if before.contains(node) {
                        let k = choose|k: int| 0 <= k < before.len() && before[k] == node;
                        assert(before[k].0 == node.0);
                    }
                }
                assert forall|other: NodeId| after.contains(other) <==> (before.contains(other)
                    || other == node) by {
                    if before.contains(other) {
                        let k = choose|k: int| 0 <= k < before.len() && before[k] == other;
                        if k < at {
                            assert(after[k] == other);
                        } else {
                            assert(after[k + 1] == other);
                        }
                    }
                    if other == node {
                        assert(after[at as int] == other);
                    }
                    if after.contains(other) {
                        let k = choose|k: int| 0 <= k < after.len() && after[k] == other;
                        if k < at {
                            assert(before[k] == other);
                        } else if k > at {
                            assert(before[k - 1] == other);
                        }
                    }
                }
            }
            true
        }
    }

    /// The ordered set of the replicas in `list`.
    pub fn from_nodes(list: &Vec<NodeId>) -> (set: NodeSet)
        ensures
            set.wf(),
            forall|node: NodeId| set.contains(node) <==> list@.contains(node),
    {
        let mut set = NodeSet::new();
        let mut i: usize = 0;
        while i < list.len()
            invariant
                i <= list.len(),
                set.wf(),
                forall|node: NodeId|
                    set.contains(node) <==> list@.take(i as int).contains(node),
            decreases list.len() - i,
        {
            let ghost earlier = set;
            set.insert(list[i]);
            proof {
                let head = list@.take(i as int);
                let next = list@.take(i + 1);
                assert(next =~= head.push(list@[i as int]));
                assert forall|node: NodeId| set.contains(node) <==> next.contains(node) by {
                    if head.contains(node) {
                        let k = choose|k: int| 0 <= k < head.len() && head[k] == node;
                        assert(next[k] == node);
                    }
                    if node == list@[i as int] {
                        assert(next[i as int] == node);
                    }
                    if next.contains(node) {
                        let k = choose|k: int| 0 <= k < next.len() && next[k] == node;
                        if k < i {
                            assert(head[k] == node);
                        }
                    }
                }
            }
            i += 1;
        }
        proof {
            assert(list@.take(list.len() as int) =~= list@);
        }
        set
    }

    /// The place of `node` in the order, if it is a member.
    pub fn position(&self, node: NodeId) -> (place: Option<usize>)
        ensures
            place.is_some() == self.contains(node),
            match place {
                Some(index) => index < self@.len() && self@[index as int] == node,
                None => true,
            },
    {
        let mut i: usize = 0;
        while i < self.nodes.len()
            invariant
                i <= self.nodes.len(),
                forall|k: int| 0 <= k < i ==> self.nodes@[k] != node,
            decreases self.nodes.len() - i,
        {
            if self.nodes[i].0 == node.0 {
                return Some(i);
            }
            i += 1;
        }
        None
    }
}

/// What a block asks for when it requests a transcript.
#[derive(Clone, Debug, PartialEq, Eq)]
pub struct IDkgTranscriptParams {
    pub transcript_id: IDkgTranscriptId,
    /// The replicas that are to issue a dealing.
    pub dealers: NodeSet,
    /// The replicas that are to support the dealings.
    pub receivers: NodeSet,
    pub registry_version: RegistryVersion,
    pub algorithm_id: AlgorithmId,
    pub operation: IDkgTranscriptOperation,
}

impl IDkgTranscriptParams {
    /// Parameters from their parts.
    pub fn new(
        transcript_id: IDkgTranscriptId,
        dealers: NodeSet,
        receivers: NodeSet,
        registry_version: RegistryVersion,
        algorithm_id: AlgorithmId,
        operation: IDkgTranscriptOperation,
    ) -> (params: IDkgTranscriptParams)
        ensures
            params == (IDkgTranscriptParams {
                transcript_id,
                dealers,
                receivers,
                registry_version,
                algorithm_id,
                operation,
            }),
    {
        IDkgTranscriptParams {
            transcript_id,
            dealers,
            receivers,
            registry_version,
            algorithm_id,
            operation,
        }
    }
}

} // verus!
