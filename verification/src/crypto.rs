//! The cryptographic capability that the engine consumes.

use crate::params::IDkgTranscriptParams;
use crate::types::{
    EcdsaDealing, EcdsaDealingSupport, EcdsaDealingSupportView, EcdsaDealingView, IDkgDealing,
    NodeId, RegistryVersion,
};
use vstd::prelude::*;

verus! {

/// Why a cryptographic operation failed.
#[derive(Clone, Copy, Debug, PartialEq, Eq, Structural)]
pub struct CryptoError {
    /// Whether every honest replica observes the same failure.
    pub replicated: bool,
}

impl CryptoError {
    /// A failure that every honest replica observes alike.
    pub fn permanent() -> (error: CryptoError)
        ensures
            error.replicated,
    {
        CryptoError { replicated: true }
    }

    /// A failure of this replica at this moment.
    pub fn transient() -> (error: CryptoError)
        ensures
            !error.replicated,
    {
        CryptoError { replicated: false }
    }

    /// Whether every honest replica observes the same failure.
    pub fn is_replicated(&self) -> (replicated: bool)
        ensures
            replicated == self.replicated,
    {
        self.replicated
    }
}

/// What a created dealing holds, or the failure to create it.
pub open spec fn created_view(outcome: Result<IDkgDealing, CryptoError>) -> Result<
    Seq<u8>,
    CryptoError,
> {
    match outcome {
        Ok(dealing) => Ok(dealing@),
        Err(error) => Err(error),
    }
}

/// What a signature share holds, or the failure to sign.
pub open spec fn signed_view(outcome: Result<Vec<u8>, CryptoError>) -> Result<
    Seq<u8>,
    CryptoError,
> {
    match outcome {
        Ok(share) => Ok(share@),
        Err(error) => Err(error),
    }
}

/// The operations on dealings and supports that the engine needs.
///
/// Nothing is promised of their answers. Each operation comes with a relation
/// between what it is given and what it may answer, which an implementation
/// may define and which holds of everything by default. The engine states
/// through these relations what it hands to each operation.
pub trait ConsensusCrypto {
    /// Whether `create_dealing` may answer `outcome` for `params`.
    open spec fn may_create_dealing(
        &self,
        params: IDkgTranscriptParams,
        outcome: Result<Seq<u8>, CryptoError>,
    ) -> bool {
        true
    }

    /// Creates this replica's dealing for the transcript.
    fn create_dealing(&self, params: &IDkgTranscriptParams) -> (outcome: Result<
        IDkgDealing,
        CryptoError,
    >)
        ensures
            self.may_create_dealing(*params, created_view(outcome)),
    ;

    /// Whether `verify_dealing_public` may answer `outcome` for `params` and
    /// the dealing of the bytes `dealing`.
    open spec fn may_verify_dealing_public(
        &self,
        params: IDkgTranscriptParams,
        dealing: Seq<u8>,
        outcome: Result<(), CryptoError>,
    ) -> bool {
        true
    }

    /// Checks a dealing as anyone can.
    fn verify_dealing_public(
        &self,
        params: &IDkgTranscriptParams,
        dealing: &IDkgDealing,
    ) -> (outcome: Result<(), CryptoError>)
        ensures
            self.may_verify_dealing_public(*params, dealing@, outcome),
    ;

    /// Whether `verify_dealing_private` may answer `outcome` for `params` and
    /// the dealing of the bytes `dealing`.
    open spec fn may_verify_dealing_private(
        &self,
        params: IDkgTranscriptParams,
        dealing: Seq<u8>,
        outcome: Result<(), CryptoError>,
    ) -> bool {
        true
    }

    /// Checks a dealing as only one of its receivers can.
    fn verify_dealing_private(
        &self,
        params: &IDkgTranscriptParams,
        dealing: &IDkgDealing,
    ) -> (outcome: Result<(), CryptoError>)
        ensures
            self.may_verify_dealing_private(*params, dealing@, outcome),
    ;

    /// Whether `sign` may answer `outcome` for the dealing, the signer and
    /// the registry version.
    open spec fn may_sign(
        &self,
        dealing: EcdsaDealingView,
        signer: NodeId,
        registry_version: RegistryVersion,
        outcome: Result<Seq<u8>, CryptoError>,
    ) -> bool {
        true
    }

    /// Signs a dealing in the name of `signer`, giving the signature share.
    fn sign(
        &self,
        dealing: &EcdsaDealing,
        signer: NodeId,
        registry_version: RegistryVersion,
    ) -> (outcome: Result<Vec<u8>, CryptoError>)
        ensures
            self.may_sign(dealing@, signer, registry_version, signed_view(outcome)),
    ;

    /// Whether `verify` may answer `outcome` for the support and the registry
    /// version.
    open spec fn may_verify(
        &self,
        support: EcdsaDealingSupportView,
        registry_version: RegistryVersion,
        outcome: Result<(), CryptoError>,
    ) -> bool {
        true
    }

    /// Checks the signature share of a support.
    fn verify(
        &self,
        support: &EcdsaDealingSupport,
        registry_version: RegistryVersion,
    ) -> (outcome: Result<(), CryptoError>)
        ensures
            self.may_verify(support@, registry_version, outcome),
    ;
}

} // verus!
