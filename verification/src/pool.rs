//! The artifact pool as the engine reads it: a validated and an unvalidated
//! section, each with its dealings and its dealing supports.

use crate::types::{
    EcdsaDealing, EcdsaDealingSupport, EcdsaMessageId, IDkgTranscriptId, NodeId,
};
use vstd::prelude::*;

verus! {

/// The entries of one section of the pool, each with the identifier that the
/// pool gave it, in the order in which the pool hands them out.
#[derive(Debug, PartialEq, Eq)]
pub struct EcdsaPoolSection {
    pub dealings: Vec<(EcdsaMessageId, EcdsaDealing)>,
    pub dealing_support: Vec<(EcdsaMessageId, EcdsaDealingSupport)>,
}

impl EcdsaPoolSection {
    /// A section without entries.
    pub fn new() -> (section: EcdsaPoolSection)
        ensures
            section.dealings@.len() == 0,
            section.dealing_support@.len() == 0,
    {
        EcdsaPoolSection { dealings: Vec::new(), dealing_support: Vec::new() }
    }

    /// Whether the section holds a dealing of `dealer_id` for `transcript_id`.
    pub open spec fn has_dealing(&self, transcript_id: IDkgTranscriptId, dealer_id: NodeId) -> bool {
        exists|i: int|
            0 <= i < self.dealings@.len() && dealing_matches(
                #[trigger] self.dealings@[i].1,
                transcript_id,
                dealer_id,
            )
    }

    /// Whether the section holds a support by `signer` for the dealing of
    /// `dealer_id` for `transcript_id`.
    pub open spec fn has_support(
        &self,
        transcript_id: IDkgTranscriptId,
        dealer_id: NodeId,
        signer: NodeId,
    ) -> bool {
        exists|i: int|
            0 <= i < self.dealing_support@.len() && support_matches(
                #[trigger] self.dealing_support@[i].1,
                transcript_id,
                dealer_id,
                signer,
            )
    }
}

/// Whether `dealing` is the dealing of `dealer_id` for `transcript_id`.
pub open spec fn dealing_matches(
    dealing: EcdsaDealing,
    transcript_id: IDkgTranscriptId,
    dealer_id: NodeId,
) -> bool {
    dealing.transcript_id == transcript_id && dealing.dealer_id == dealer_id
}

/// Whether `support` is the support by `signer` for the dealing of `dealer_id`
/// for `transcript_id`.
pub open spec fn support_matches(
    support: EcdsaDealingSupport,
    transcript_id: IDkgTranscriptId,
    dealer_id: NodeId,
    signer: NodeId,
) -> bool {
    dealing_matches(support.content, transcript_id, dealer_id) && support.signature.signer
        == signer
}

/// A snapshot of the artifact pool.
#[derive(Debug, PartialEq, Eq)]
pub struct EcdsaPool {
    pub validated: EcdsaPoolSection,
    pub unvalidated: EcdsaPoolSection,
}

impl EcdsaPool {
    /// A pool without entries.
    pub fn new() -> (pool: EcdsaPool)
        ensures
            pool.validated.dealings@.len() == 0,
            pool.validated.dealing_support@.len() == 0,
            pool.unvalidated.dealings@.len() == 0,
            pool.unvalidated.dealing_support@.len() == 0,
    {
        EcdsaPool { validated: EcdsaPoolSection::new(), unvalidated: EcdsaPoolSection::new() }
    }

    /// The validated section.
    pub fn validated(&self) -> (section: &EcdsaPoolSection)
        ensures
            *section == self.validated,
    {
        &self.validated
    }

    /// The unvalidated section.
    pub fn unvalidated(&self) -> (section: &EcdsaPoolSection)
        ensures
            *section == self.unvalidated,
    {
        &self.unvalidated
    }
}

} // verus!
