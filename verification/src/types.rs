//! Identifiers and messages exchanged between the engine and its collaborators.
//!
//! Identifiers are plain integers in a wrapper. Messages that carry an opaque
//! payload have a view in which the payload is a sequence of bytes, so that
//! contracts can speak of the content of a message.

use vstd::prelude::*;

verus! {

/// Identity of a replica.
#[derive(Clone, Copy, Debug, PartialEq, Eq, Structural, PartialOrd, Ord, Hash)]
pub struct NodeId(pub u64);

/// Position in the finalized chain.
#[derive(Clone, Copy, Debug, PartialEq, Eq, Structural, PartialOrd, Ord, Hash)]
pub struct Height(pub u64);

impl Height {
    /// The height with the given number.
    pub fn from(value: u64) -> (height: Height)
        ensures
            height == Height(value),
    {
        Height(value)
    }

    /// The number of this height.
    pub fn get(&self) -> (value: u64)
        ensures
            value == self.0,
    {
        self.0
    }
}

/// Identifier of a transcript.
#[derive(Clone, Copy, Debug, PartialEq, Eq, Structural, PartialOrd, Ord, Hash)]
pub struct IDkgTranscriptId(pub u64);

/// Version of the registry under which a transcript is built.
#[derive(Clone, Copy, Debug, PartialEq, Eq, Structural, PartialOrd, Ord, Hash)]
pub struct RegistryVersion(pub u64);

impl RegistryVersion {
    /// The registry version with the given number.
    pub fn from(value: u64) -> (version: RegistryVersion)
        ensures
            version == RegistryVersion(value),
    {
        RegistryVersion(value)
    }
}

/// Identifier that the pool gave to one of its entries.
#[derive(Clone, Copy, Debug, PartialEq, Eq, Structural, PartialOrd, Ord, Hash)]
pub struct EcdsaMessageId(pub u64);

/// Signature scheme of a transcript.
#[derive(Clone, Copy, Debug, PartialEq, Eq, Structural, Hash)]
pub enum AlgorithmId {
    Placeholder,
    ThresholdEcdsaSecp256k1,
}

/// How the shared secret of a transcript comes about.
#[derive(Clone, Copy, Debug, PartialEq, Eq, Structural, Hash)]
pub enum IDkgTranscriptOperation {
    Random,
    ReshareOfMasked(IDkgTranscriptId),
    ReshareOfUnmasked(IDkgTranscriptId),
    UnmaskedTimesMasked(IDkgTranscriptId, IDkgTranscriptId),
}

/// Payload of a dealing. The engine carries it and never looks inside.
#[derive(Debug, PartialEq, Eq)]
pub struct IDkgDealing {
    pub bytes: Vec<u8>,
}

impl View for IDkgDealing {
    type V = Seq<u8>;

    open spec fn view(&self) -> Seq<u8> {
        self.bytes@
    }
}

impl Clone for IDkgDealing {
    fn clone(&self) -> (copy: Self)
        ensures
            copy@ == self@,
    {
        IDkgDealing { bytes: clone_bytes(&self.bytes) }
    }
}

/// A copy of a byte vector.
pub fn clone_bytes(bytes: &Vec<u8>) -> (copy: Vec<u8>)
    ensures
        copy@ == bytes@,
{
    let mut copy: Vec<u8> = Vec::new();
    let mut i: usize = 0;
    while i < bytes.len()
        invariant
            i <= bytes.len(),
            copy@ == bytes@.take(i as int),
        decreases bytes.len() - i,
    {
        copy.push(bytes[i]);
        proof {
            assert(bytes@.take(i + 1) =~= bytes@.take(i as int).push(bytes@[i as int]));
        }
        i += 1;
    }
    proof {
        assert(bytes@.take(bytes.len() as int) =~= bytes@);
    }
    copy
}

/// A dealer's contribution to a transcript.
#[derive(Debug, PartialEq, Eq)]
pub struct EcdsaDealing {
    /// Height of the block that requested the transcript.
    pub requested_height: Height,
    pub dealer_id: NodeId,
    pub transcript_id: IDkgTranscriptId,
    pub dealing: IDkgDealing,
}

/// What a dealing holds, its payload as bytes.
pub struct EcdsaDealingView {
    pub requested_height: Height,
    pub dealer_id: NodeId,
    pub transcript_id: IDkgTranscriptId,
    pub dealing: Seq<u8>,
}

impl View for EcdsaDealing {
    type V = EcdsaDealingView;

    open spec fn view(&self) -> EcdsaDealingView {
        EcdsaDealingView {
            requested_height: self.requested_height,
            dealer_id: self.dealer_id,
            transcript_id: self.transcript_id,
            dealing: self.dealing@,
        }
    }
}

impl Clone for EcdsaDealing {
    fn clone(&self) -> (copy: Self)
        ensures
            copy@ == self@,
    {
        EcdsaDealing {
            requested_height: self.requested_height,
            dealer_id: self.dealer_id,
            transcript_id: self.transcript_id,
            dealing: self.dealing.clone(),
        }
    }
}

/// One signer's share of a multi-signature.
#[derive(Debug, PartialEq, Eq)]
pub struct MultiSignatureShare {
    pub signer: NodeId,
    pub share: Vec<u8>,
}

/// What a signature share holds.
pub struct MultiSignatureShareView {
    pub signer: NodeId,
    pub share: Seq<u8>,
}

impl View for MultiSignatureShare {
    type V = MultiSignatureShareView;

    open spec fn view(&self) -> MultiSignatureShareView {
        MultiSignatureShareView { signer: self.signer, share: self.share@ }
    }
}

impl Clone for MultiSignatureShare {
    fn clone(&self) -> (copy: Self)
        ensures
            copy@ == self@,
    {
        MultiSignatureShare { signer: self.signer, share: clone_bytes(&self.share) }
    }
}

/// A receiver's attestation that a dealing passed its private verification.
#[derive(Debug, PartialEq, Eq)]
pub struct EcdsaDealingSupport {
    pub content: EcdsaDealing,
    pub signature: MultiSignatureShare,
}

/// What a dealing support holds.
pub struct EcdsaDealingSupportView {
    pub content: EcdsaDealingView,
    pub signature: MultiSignatureShareView,
}

impl View for EcdsaDealingSupport {
    type V = EcdsaDealingSupportView;

    open spec fn view(&self) -> EcdsaDealingSupportView {
        EcdsaDealingSupportView { content: self.content@, signature: self.signature@ }
    }
}

impl Clone for EcdsaDealingSupport {
    fn clone(&self) -> (copy: Self)
        ensures
            copy@ == self@,
    {
        EcdsaDealingSupport { content: self.content.clone(), signature: self.signature.clone() }
    }
}

/// A message of the pool.
#[derive(Debug, PartialEq, Eq)]
pub enum EcdsaMessage {
    EcdsaDealing(EcdsaDealing),
    EcdsaDealingSupport(EcdsaDealingSupport),
}

/// What a message holds.
pub enum EcdsaMessageView {
    EcdsaDealing(EcdsaDealingView),
    EcdsaDealingSupport(EcdsaDealingSupportView),
}

impl View for EcdsaMessage {
    type V = EcdsaMessageView;

    open spec fn view(&self) -> EcdsaMessageView {
        match self {
            EcdsaMessage::EcdsaDealing(dealing) => EcdsaMessageView::EcdsaDealing(dealing@),
            EcdsaMessage::EcdsaDealingSupport(support) => EcdsaMessageView::EcdsaDealingSupport(
                support@,
            ),
        }
    }
}

impl Clone for EcdsaMessage {
    fn clone(&self) -> (copy: Self)
        ensures
            copy@ == self@,
    {
        match self {
            EcdsaMessage::EcdsaDealing(dealing) => EcdsaMessage::EcdsaDealing(dealing.clone()),
            EcdsaMessage::EcdsaDealingSupport(support) => EcdsaMessage::EcdsaDealingSupport(
                support.clone(),
            ),
        }
    }
}

/// One change that the engine asks the pool to make.
#[derive(Debug, PartialEq, Eq)]
pub enum EcdsaChangeAction {
    /// Add a message of this replica to the validated section.
    AddToValidated(EcdsaMessage),
    /// Move an entry from the unvalidated to the validated section.
    MoveToValidated(EcdsaMessageId),
    /// Forget an entry of the unvalidated section.
    RemoveUnvalidated(EcdsaMessageId),
    /// Remove an entry as invalid, with the reason.
    HandleInvalid(EcdsaMessageId, String),
}

/// What a change holds.
pub enum EcdsaChangeActionView {
    AddToValidated(EcdsaMessageView),
    MoveToValidated(EcdsaMessageId),
    RemoveUnvalidated(EcdsaMessageId),
    HandleInvalid(EcdsaMessageId, Seq<char>),
}

impl View for EcdsaChangeAction {
    type V = EcdsaChangeActionView;

    open spec fn view(&self) -> EcdsaChangeActionView {
        match self {
            EcdsaChangeAction::AddToValidated(message) => EcdsaChangeActionView::AddToValidated(
                message@,
            ),
            EcdsaChangeAction::MoveToValidated(id) => EcdsaChangeActionView::MoveToValidated(*id),
            EcdsaChangeAction::RemoveUnvalidated(id) => EcdsaChangeActionView::RemoveUnvalidated(
                *id,
            ),
            EcdsaChangeAction::HandleInvalid(id, reason) => EcdsaChangeActionView::HandleInvalid(
                *id,
                reason@,
            ),
        }
    }
}

/// The changes of one call, in the order in which the pool applies them.
pub type EcdsaChangeSet = Vec<EcdsaChangeAction>;

/// What a change set holds: the view of each change, in order.
pub open spec fn change_set_view(changes: Seq<EcdsaChangeAction>) -> Seq<EcdsaChangeActionView> {
    changes.map_values(|action: EcdsaChangeAction| action@)
}

/// What a sequence of verdicts emits: those that are not `None`, in order.
pub open spec fn emitted<A>(verdicts: Seq<Option<A>>) -> Seq<A>
    decreases verdicts.len(),
{
    if verdicts.len() == 0 {
        Seq::empty()
    } else {
        match verdicts.last() {
            Some(action) => emitted(verdicts.drop_last()).push(action),
            None => emitted(verdicts.drop_last()),
        }
    }
}

} // verus!
