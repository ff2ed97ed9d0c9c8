//! The latest finalized block as the engine reads it: its height and the
//! transcripts that it requests.

use crate::params::IDkgTranscriptParams;
use crate::types::{Height, IDkgTranscriptId};
use vstd::prelude::*;

verus! {

/// The place of the first request for `id` at or after `from`, if there is one.
pub open spec fn first_request(
    requests: Seq<IDkgTranscriptParams>,
    id: IDkgTranscriptId,
    from: int,
) -> Option<int>
    decreases requests.len() - from,
{
    if from < 0 || from >= requests.len() {
        None
    } else if requests[from].transcript_id == id {
        Some(from)
    } else {
        first_request(requests, id, from + 1)
    }
}

/// `first_request` finds the least place at or after `from` that holds a
/// request for `id`, and finds none only where no such place exists.
pub proof fn lemma_first_request(requests: Seq<IDkgTranscriptParams>, id: IDkgTranscriptId, from: int)
    requires
        0 <= from,
    ensures
        match first_request(requests, id, from) {
            Some(place) => {
                &&& from <= place < requests.len()
                &&& requests[place].transcript_id == id
                &&& forall|k: int| from <= k < place ==> requests[k].transcript_id != id
            },
            None => forall|k: int| from <= k < requests.len() ==> requests[k].transcript_id != id,
        },
    decreases requests.len() - from,
{
    if from < requests.len() && requests[from].transcript_id != id {
        lemma_first_request(requests, id, from + 1);
    }
}

/// The place of the last request for `id` before `upto`, if there is one.
pub open spec fn last_request(requests: Seq<IDkgTranscriptParams>, id: IDkgTranscriptId, upto: int) -> Option<
    int,
>
    decreases upto,
{
    if upto <= 0 || upto > requests.len() {
        None
    } else if requests[upto - 1].transcript_id == id {
        Some(upto - 1)
    } else {
        last_request(requests, id, upto - 1)
    }
}

/// `last_request` finds the greatest place before `upto` that holds a request
/// for `id`, and finds none only where no such place exists.
pub proof fn lemma_last_request(requests: Seq<IDkgTranscriptParams>, id: IDkgTranscriptId, upto: int)
    requires
        upto <= requests.len(),
    ensures
        match last_request(requests, id, upto) {
            Some(place) => {
                &&& 0 <= place < upto
                &&& requests[place].transcript_id == id
                &&& forall|k: int| place < k < upto ==> requests[k].transcript_id != id
            },
            None => forall|k: int| 0 <= k < upto ==> requests[k].transcript_id != id,
        },
    decreases upto,
{
    if upto > 0 && requests[upto - 1].transcript_id != id {
        lemma_last_request(requests, id, upto - 1);
    }
}

/// Whether no two requests bear the same transcript identifier.
pub open spec fn distinct_requests(requests: Seq<IDkgTranscriptParams>) -> bool {
    forall|i: int, j: int|
        0 <= i < j < requests.len() ==> requests[i].transcript_id != requests[j].transcript_id
}

/// A snapshot of the latest finalized block.
#[derive(Clone, Debug, PartialEq, Eq)]
pub struct EcdsaBlockReader {
    pub height: Height,
    pub requests: Vec<IDkgTranscriptParams>,
}

impl EcdsaBlockReader {
    /// The snapshot of a block at `height` that requests `requests`.
    pub fn new(height: Height, requests: Vec<IDkgTranscriptParams>) -> (reader: EcdsaBlockReader)
        ensures
            reader.height == height,
            reader.requests == requests,
    {
        EcdsaBlockReader { height, requests }
    }

    /// The height of the block.
    pub fn height(&self) -> (height: Height)
        ensures
            height == self.height,
    {
        self.height
    }

    /// The transcripts that the block requests, in its order.
    pub fn requested_transcripts(&self) -> (requests: &Vec<IDkgTranscriptParams>)
        ensures
            requests@ == self.requests@,
    {
        &self.requests
    }

    /// The place of the first request for `id`, if the block requests it.
    pub open spec fn request_for(&self, id: IDkgTranscriptId) -> Option<int> {
        first_request(self.requests@, id, 0)
    }

    /// The place of the last request for `id`, if the block requests it.
    pub open spec fn last_request_for(&self, id: IDkgTranscriptId) -> Option<int> {
        last_request(self.requests@, id, self.requests@.len() as int)
    }

    /// The place of the last request for `id`, if the block requests it.
    pub fn find_last_request(&self, id: IDkgTranscriptId) -> (place: Option<usize>)
        ensures
            match place {
                Some(index) => index < self.requests@.len() && self.last_request_for(id) == Some(
                    index as int,
                ),
                None => self.last_request_for(id).is_none(),
            },
    {
        let mut i: usize = self.requests.len();
        while i > 0
            invariant
                i <= self.requests.len(),
                self.last_request_for(id) == last_request(self.requests@, id, i as int),
            decreases i,
        {
            if self.requests[i - 1].transcript_id == id {
                return Some(i - 1);
            }
            i -= 1;
        }
        None
    }

    /// The place of the first request for `id`, if the block requests it.
    pub fn find_request(&self, id: IDkgTranscriptId) -> (place: Option<usize>)
        ensures
            match place {
                Some(index) => index < self.requests@.len() && self.request_for(id) == Some(
                    index as int,
                ),
                None => self.request_for(id).is_none(),
            },
    {
        let mut i: usize = 0;
        while i < self.requests.len()
            invariant
                i <= self.requests.len(),
                self.request_for(id) == first_request(self.requests@, id, i as int),
            decreases self.requests.len() - i,
        {
            if self.requests[i].transcript_id == id {
                return Some(i);
            }
            i += 1;
        }
        None
    }
}

} // verus!
