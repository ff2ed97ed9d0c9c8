//! What to do with a received message, given the latest finalized block.

use crate::block_reader::EcdsaBlockReader;
use crate::params::IDkgTranscriptParams;
use crate::types::{Height, IDkgTranscriptId};
use vstd::prelude::*;

verus! {

/// How to handle a received message.
#[derive(Debug, PartialEq, Eq)]
pub enum Action<'a> {
    /// The block requests the transcript of the message: process it now, with
    /// the parameters that the block gives.
    Process(&'a IDkgTranscriptParams),
    /// The message comes from a replica that is ahead: keep it for later.
    Defer,
    /// The block does not request the transcript: the message is not needed.
    Drop,
}

/// How to handle a message, with the place of the request in the block.
pub enum Triage {
    Process(int),
    Defer,
    Drop,
}

/// How a message of the given height and transcript is handled.
pub open spec fn triage(
    reader: &EcdsaBlockReader,
    msg_height: Height,
    msg_transcript_id: IDkgTranscriptId,
) -> Triage {
    if msg_height.0 > reader.height.0 {
        Triage::Defer
    } else {
        match reader.request_for(msg_transcript_id) {
            Some(place) => Triage::Process(place),
            None => Triage::Drop,
        }
    }
}

impl<'a> Action<'a> {
    /// The way of handling that this action stands for.
    pub open spec fn matches_triage(&self, reader: &EcdsaBlockReader, triage: Triage) -> bool {
        match triage {
            Triage::Process(place) => {
                &&& 0 <= place < reader.requests@.len()
                &&& *self == Action::Process(&reader.requests@[place])
            },
            Triage::Defer => *self == Action::<'a>::Defer,
            Triage::Drop => *self == Action::<'a>::Drop,
        }
    }

    /// Decides how to handle a received message of the given height and
    /// transcript: deferred if it is above the block, processed with the first
    /// request for its transcript, dropped if there is none.
    pub fn action(
        block_reader: &'a EcdsaBlockReader,
        msg_height: Height,
        msg_transcript_id: &IDkgTranscriptId,
    ) -> (action: Action<'a>)
        ensures
            action.matches_triage(block_reader, triage(block_reader, msg_height, *msg_transcript_id)),
    {
        if msg_height.0 > block_reader.height().0 {
            return Action::Defer;
        }
        match block_reader.find_request(*msg_transcript_id) {
            Some(place) => {
                Action::Process(&block_reader.requests[place])
            },
            None => Action::Drop,
        }
    }
}

} // verus!
