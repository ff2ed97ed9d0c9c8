use pre_signer::action::Action;
use pre_signer::block_reader::EcdsaBlockReader;
use pre_signer::crypto::{ConsensusCrypto, CryptoError};
use pre_signer::params::{IDkgTranscriptParams, NodeSet};
use pre_signer::pool::EcdsaPool;
use pre_signer::pre_signer::EcdsaPreSignerImpl;
use pre_signer::types::{
    AlgorithmId, EcdsaChangeAction, EcdsaDealing, EcdsaDealingSupport, EcdsaMessage,
    EcdsaMessageId, Height, IDkgDealing, IDkgTranscriptId, IDkgTranscriptOperation,
    MultiSignatureShare, NodeId, RegistryVersion,
};

const NODE_1: NodeId = NodeId(1);
const NODE_2: NodeId = NodeId(2);
const NODE_3: NodeId = NodeId(3);
const NODE_4: NodeId = NodeId(4);

// A capability for which every operation succeeds
struct CryptoReturningOk;

impl ConsensusCrypto for CryptoReturningOk {
    fn create_dealing(&self, _params: &IDkgTranscriptParams) -> Result<IDkgDealing, CryptoError> {
        Ok(IDkgDealing { bytes: vec![7, 7] })
    }

    fn verify_dealing_public(
        &self,
        _params: &IDkgTranscriptParams,
        _dealing: &IDkgDealing,
    ) -> Result<(), CryptoError> {
        Ok(())
    }

    fn verify_dealing_private(
        &self,
        _params: &IDkgTranscriptParams,
        _dealing: &IDkgDealing,
    ) -> Result<(), CryptoError> {
        Ok(())
    }

    fn sign(
        &self,
        _dealing: &EcdsaDealing,
        _signer: NodeId,
        _registry_version: RegistryVersion,
    ) -> Result<Vec<u8>, CryptoError> {
        Ok(vec![9])
    }

    fn verify(
        &self,
        _support: &EcdsaDealingSupport,
        _registry_version: RegistryVersion,
    ) -> Result<(), CryptoError> {
        Ok(())
    }
}

// Hands out the identifiers of the pool entries
struct TestPool {
    pool: EcdsaPool,
    next_id: u64,
}

impl TestPool {
    fn new() -> Self {
        TestPool { pool: EcdsaPool::new(), next_id: 1000 }
    }

    fn fresh_id(&mut self) -> EcdsaMessageId {
        self.next_id += 1;
        EcdsaMessageId(self.next_id)
    }

    // Adds the messages of the change set to the validated section
    fn apply_changes(&mut self, change_set: Vec<EcdsaChangeAction>) {
        for action in change_set {
            match action {
                EcdsaChangeAction::AddToValidated(EcdsaMessage::EcdsaDealing(dealing)) => {
                    let id = self.fresh_id();
                    self.pool.validated.dealings.push((id, dealing));
                }
                EcdsaChangeAction::AddToValidated(EcdsaMessage::EcdsaDealingSupport(support)) => {
                    let id = self.fresh_id();
                    self.pool.validated.dealing_support.push((id, support));
                }
                _ => panic!("only additions are applied here"),
            }
        }
    }

    // Adds the message to the unvalidated section
    fn insert(&mut self, message: EcdsaMessage) -> EcdsaMessageId {
        let id = self.fresh_id();
        match message {
            EcdsaMessage::EcdsaDealing(dealing) => {
                self.pool.unvalidated.dealings.push((id, dealing))
            }
            EcdsaMessage::EcdsaDealingSupport(support) => {
                self.pool.unvalidated.dealing_support.push((id, support))
            }
        }
        id
    }
}

fn create_dependencies() -> (TestPool, EcdsaPreSignerImpl<CryptoReturningOk>) {
    (TestPool::new(), EcdsaPreSignerImpl::new(NODE_1, CryptoReturningOk))
}

// Creates a test transcript param
fn create_transcript_param(
    transcript_id: IDkgTranscriptId,
    dealer_list: &[NodeId],
    receiver_list: &[NodeId],
) -> IDkgTranscriptParams {
    IDkgTranscriptParams::new(
        transcript_id,
        NodeSet::from_nodes(&dealer_list.to_vec()),
        NodeSet::from_nodes(&receiver_list.to_vec()),
        RegistryVersion::from(0),
        AlgorithmId::Placeholder,
        IDkgTranscriptOperation::Random,
    )
}

// Creates a test dealing
fn create_dealing(transcript_id: IDkgTranscriptId, dealer_id: NodeId) -> EcdsaDealing {
    EcdsaDealing {
        requested_height: Height::from(10),
        dealer_id,
        transcript_id,
        dealing: IDkgDealing { bytes: vec![] },
    }
}

// Creates a test dealing support
fn create_support(
    transcript_id: IDkgTranscriptId,
    dealer_id: NodeId,
    signer: NodeId,
) -> EcdsaDealingSupport {
    EcdsaDealingSupport {
        content: create_dealing(transcript_id, dealer_id),
        signature: MultiSignatureShare { signer, share: vec![] },
    }
}

// Checks that the dealing with the given id is being added to the validated
// pool
fn is_dealing_added_to_validated(
    change_set: &[EcdsaChangeAction],
    transcript_id: &IDkgTranscriptId,
) -> bool {
    for action in change_set {
        if let EcdsaChangeAction::AddToValidated(EcdsaMessage::EcdsaDealing(dealing)) = action {
            if dealing.transcript_id == *transcript_id && dealing.dealer_id == NODE_1 {
                return true;
            }
        }
    }
    false
}

// Checks that the dealing support for the given dealing is being added to the
// validated pool
fn is_dealing_support_added_to_validated(
    change_set: &[EcdsaChangeAction],
    transcript_id: &IDkgTranscriptId,
    dealer_id: &NodeId,
) -> bool {
    for action in change_set {
        if let EcdsaChangeAction::AddToValidated(EcdsaMessage::EcdsaDealingSupport(support)) =
            action
        {
            let dealing = &support.content;
            if dealing.transcript_id == *transcript_id
                && dealing.dealer_id == *dealer_id
                && support.signature.signer == NODE_1
            {
                return true;
            }
        }
    }
    false
}

// Checks that artifact is being moved from unvalidated to validated pool
fn is_moved_to_validated(change_set: &[EcdsaChangeAction], msg_id: &EcdsaMessageId) -> bool {
    for action in change_set {
        if let EcdsaChangeAction::MoveToValidated(id) = action {
            if *id == *msg_id {
                return true;
            }
        }
    }
    false
}

// Checks that artifact is being removed from unvalidated pool
fn is_removed_from_unvalidated(change_set: &[EcdsaChangeAction], msg_id: &EcdsaMessageId) -> bool {
    for action in change_set {
        if let EcdsaChangeAction::RemoveUnvalidated(id) = action {
            if *id == *msg_id {
                return true;
            }
        }
    }
    false
}

// Checks that artifact is being dropped as invalid
fn is_handle_invalid(change_set: &[EcdsaChangeAction], msg_id: &EcdsaMessageId) -> bool {
    for action in change_set {
        if let EcdsaChangeAction::HandleInvalid(id, _) = action {
            if *id == *msg_id {
                return true;
            }
        }
    }
    false
}

// Tests the Action logic
#[test]
fn test_action() {
    let (id_1, id_2, id_3, id_4) = (
        IDkgTranscriptId(1),
        IDkgTranscriptId(2),
        IDkgTranscriptId(3),
        IDkgTranscriptId(4),
    );

    // The finalized block requests transcripts 1, 2, 3
    let nodes = [NODE_1];
    let block_reader = EcdsaBlockReader::new(
        Height::from(100),
        vec![
            create_transcript_param(id_1, &nodes, &nodes),
            create_transcript_param(id_2, &nodes, &nodes),
            create_transcript_param(id_3, &nodes, &nodes),
        ],
    );

    // Message from a node ahead of us
    assert_eq!(
        Action::action(&block_reader, Height::from(200), &id_4),
        Action::Defer
    );

    // Messages for transcripts not being currently requested
    assert_eq!(
        Action::action(&block_reader, Height::from(100), &IDkgTranscriptId(234)),
        Action::Drop
    );
    assert_eq!(
        Action::action(&block_reader, Height::from(10), &IDkgTranscriptId(234)),
        Action::Drop
    );

    // Messages for transcripts currently requested
    let action = Action::action(&block_reader, Height::from(100), &id_1);
    match action {
        Action::Process(_) => {}
        _ => panic!("Unexpected action: {:?}", action),
    }

    let action = Action::action(&block_reader, Height::from(10), &id_2);
    match action {
        Action::Process(_) => {}
        _ => panic!("Unexpected action: {:?}", action),
    }
}

// Tests that dealings are sent for new transcripts, and requests already
// in progress are filtered out.
#[test]
fn test_ecdsa_send_dealings() {
    let (mut ecdsa_pool, pre_signer) = create_dependencies();
    let (id_1, id_2, id_3, id_4, id_5) = (
        IDkgTranscriptId(1),
        IDkgTranscriptId(2),
        IDkgTranscriptId(3),
        IDkgTranscriptId(4),
        IDkgTranscriptId(5),
    );

    // Set up the ECDSA pool. Pool has dealings for transcripts 1, 2, 3.
    // Only dealing for transcript 1 is issued by us.
    let dealing_1 = create_dealing(id_1, NODE_1);
    let dealing_2 = create_dealing(id_2, NODE_2);
    let dealing_3 = create_dealing(id_3, NODE_3);
    let change_set = vec![
        EcdsaChangeAction::AddToValidated(EcdsaMessage::EcdsaDealing(dealing_1)),
        EcdsaChangeAction::AddToValidated(EcdsaMessage::EcdsaDealing(dealing_2)),
        EcdsaChangeAction::AddToValidated(EcdsaMessage::EcdsaDealing(dealing_3)),
    ];
    ecdsa_pool.apply_changes(change_set);

    // Set up the transcript creation request
    // The block requests transcripts 1, 4, 5
    let t1 = create_transcript_param(id_1, &[NODE_1], &[NODE_2]);
    let t2 = create_transcript_param(id_4, &[NODE_1], &[NODE_3]);
    let t3 = create_transcript_param(id_5, &[NODE_1], &[NODE_4]);
    let block_reader = EcdsaBlockReader::new(Height::from(100), vec![t1, t2, t3]);

    // Since transcript 1 is already in progress, we should issue
    // dealings only for transcripts 4, 5
    let change_set = pre_signer.send_dealings(&ecdsa_pool.pool, &block_reader);
    assert_eq!(change_set.len(), 2);
    assert!(is_dealing_added_to_validated(&change_set, &id_4));
    assert!(is_dealing_added_to_validated(&change_set, &id_5));
}

// Tests that dealing is not issued if the node is in the list of dealers
// specified by the transcript params
#[test]
fn test_ecdsa_non_dealers_dont_send_dealings() {
    let (ecdsa_pool, pre_signer) = create_dependencies();
    let (id_1, id_2) = (IDkgTranscriptId(1), IDkgTranscriptId(2));

    // transcript 1 has NODE_1 as a dealer
    let t1 = create_transcript_param(id_1, &[NODE_1], &[NODE_1]);

    // Transcript 2 doesn't have NODE_1 as a dealer
    let t2 = create_transcript_param(id_2, &[NODE_2], &[NODE_2]);

    // Transcript 2 should not result in a dealing
    let block_reader = EcdsaBlockReader::new(Height::from(100), vec![t1, t2]);

    let change_set = pre_signer.send_dealings(&ecdsa_pool.pool, &block_reader);
    assert_eq!(change_set.len(), 1);
    assert!(is_dealing_added_to_validated(&change_set, &id_1));
}

// Tests that received dealings are accepted/processed for eligible transcript
// requests, and others dealings are either deferred or dropped.
#[test]
fn test_ecdsa_validate_dealings() {
    let (mut ecdsa_pool, pre_signer) = create_dependencies();
    let (id_1, id_2, id_3, id_4) = (
        IDkgTranscriptId(1),
        IDkgTranscriptId(2),
        IDkgTranscriptId(3),
        IDkgTranscriptId(4),
    );

    // Set up the transcript creation request
    // The block requests transcripts 2, 3
    let t2 = create_transcript_param(id_2, &[NODE_2], &[NODE_1]);
    let t3 = create_transcript_param(id_3, &[NODE_2], &[NODE_1]);
    let block_reader = EcdsaBlockReader::new(Height::from(100), vec![t2, t3]);

    // Set up the ECDSA pool
    // A dealing from a node ahead of us (deferred)
    let mut dealing = create_dealing(id_1, NODE_2);
    dealing.requested_height = Height::from(200);
    ecdsa_pool.insert(EcdsaMessage::EcdsaDealing(dealing));

    // A dealing for a transcript that is requested by finalized block (accepted)
    let mut dealing = create_dealing(id_2, NODE_2);
    dealing.requested_height = Height::from(100);
    let msg_id_2 = ecdsa_pool.insert(EcdsaMessage::EcdsaDealing(dealing));

    // A dealing for a transcript that is requested by finalized block (accepted)
    let mut dealing = create_dealing(id_3, NODE_2);
    dealing.requested_height = Height::from(10);
    let msg_id_3 = ecdsa_pool.insert(EcdsaMessage::EcdsaDealing(dealing));

    // A dealing for a transcript that is not requested by finalized block (dropped)
    let mut dealing = create_dealing(id_4, NODE_2);
    dealing.requested_height = Height::from(5);
    let msg_id_4 = ecdsa_pool.insert(EcdsaMessage::EcdsaDealing(dealing));

    let change_set = pre_signer.validate_dealings(&ecdsa_pool.pool, &block_reader);
    assert_eq!(change_set.len(), 3);
    assert!(is_moved_to_validated(&change_set, &msg_id_2));
    assert!(is_moved_to_validated(&change_set, &msg_id_3));
    assert!(is_removed_from_unvalidated(&change_set, &msg_id_4));
}

// Tests that duplicate dealings from a dealer for the same transcript
// are dropped.
#[test]
fn test_ecdsa_duplicate_dealing_from_dealer() {
    let (mut ecdsa_pool, pre_signer) = create_dependencies();
    let id_2 = IDkgTranscriptId(2);

    // Set up the ECDSA pool
    // Validated pool has: {transcript 2, dealer = NODE_2}
    let dealing = create_dealing(id_2, NODE_2);
    let change_set = vec![EcdsaChangeAction::AddToValidated(
        EcdsaMessage::EcdsaDealing(dealing),
    )];
    ecdsa_pool.apply_changes(change_set);

    // Unvalidated pool has: {transcript 2, dealer = NODE_2, height = 100}
    let mut dealing = create_dealing(id_2, NODE_2);
    dealing.requested_height = Height::from(100);
    let msg_id_2 = ecdsa_pool.insert(EcdsaMessage::EcdsaDealing(dealing));

    let t2 = create_transcript_param(id_2, &[NODE_2], &[NODE_1]);
    let block_reader = EcdsaBlockReader::new(Height::from(100), vec![t2]);

    let change_set = pre_signer.validate_dealings(&ecdsa_pool.pool, &block_reader);
    assert_eq!(change_set.len(), 1);
    assert!(is_handle_invalid(&change_set, &msg_id_2));
}

// Tests that duplicate dealings from a dealer for the same transcript
// in the unvalidated pool are dropped.
#[test]
fn test_ecdsa_duplicate_dealing_from_dealer_in_batch() {
    let (mut ecdsa_pool, pre_signer) = create_dependencies();
    let id_2 = IDkgTranscriptId(2);

    // Set up the ECDSA pool
    // Unvalidated pool has: {transcript 2, dealer = NODE_2, height = 100}
    let mut dealing = create_dealing(id_2, NODE_2);
    dealing.requested_height = Height::from(100);
    let msg_id_2_a = ecdsa_pool.insert(EcdsaMessage::EcdsaDealing(dealing));

    // Unvalidated pool has: {transcript 2, dealer = NODE_2, height = 10}
    let mut dealing = create_dealing(id_2, NODE_2);
    dealing.requested_height = Height::from(10);
    let msg_id_2_b = ecdsa_pool.insert(EcdsaMessage::EcdsaDealing(dealing));

    // Unvalidated pool has: {transcript 2, dealer = NODE_3, height = 90}
    let mut dealing = create_dealing(id_2, NODE_3);
    dealing.requested_height = Height::from(90);
    let msg_id_3 = ecdsa_pool.insert(EcdsaMessage::EcdsaDealing(dealing));

    let t2 = create_transcript_param(id_2, &[NODE_2, NODE_3], &[NODE_1]);
    let block_reader = EcdsaBlockReader::new(Height::from(100), vec![t2]);

    // msg_id_2_a, msg_id_2_a should be dropped as duplicates
    let change_set = pre_signer.validate_dealings(&ecdsa_pool.pool, &block_reader);
    assert_eq!(change_set.len(), 3);
    assert!(is_handle_invalid(&change_set, &msg_id_2_a));
    assert!(is_handle_invalid(&change_set, &msg_id_2_b));
    assert!(is_moved_to_validated(&change_set, &msg_id_3));
}

// Tests that dealings from a dealer that is not in the dealer list for the
// transcript are dropped.
#[test]
fn test_ecdsa_unexpected_dealing_from_dealer() {
    let (mut ecdsa_pool, pre_signer) = create_dependencies();
    let id_2 = IDkgTranscriptId(2);

    // Unvalidated pool has: {transcript 2, dealer = NODE_2, height = 100}
    let mut dealing = create_dealing(id_2, NODE_2);
    dealing.requested_height = Height::from(100);
    let msg_id_2 = ecdsa_pool.insert(EcdsaMessage::EcdsaDealing(dealing));

    // NODE_2 is not in the dealer list
    let t2 = create_transcript_param(id_2, &[NODE_3], &[NODE_1]);
    let block_reader = EcdsaBlockReader::new(Height::from(100), vec![t2]);

    let change_set = pre_signer.validate_dealings(&ecdsa_pool.pool, &block_reader);
    assert_eq!(change_set.len(), 1);
    assert!(is_handle_invalid(&change_set, &msg_id_2));
}

// Tests that support shares are sent to eligible dealings
#[test]
fn test_ecdsa_send_support() {
    let (mut ecdsa_pool, pre_signer) = create_dependencies();
    let id = IDkgTranscriptId(1);

    // We haven't sent support yet, and we are in the receiver list
    let dealing = create_dealing(id, NODE_2);
    let change_set = vec![EcdsaChangeAction::AddToValidated(
        EcdsaMessage::EcdsaDealing(dealing),
    )];
    ecdsa_pool.apply_changes(change_set);
    let t = create_transcript_param(id, &[NODE_2], &[NODE_1]);

    let block_reader = EcdsaBlockReader::new(Height::from(100), vec![t]);
    let change_set = pre_signer.send_dealing_support(&ecdsa_pool.pool, &block_reader);
    assert_eq!(change_set.len(), 1);
    assert!(is_dealing_support_added_to_validated(
        &change_set,
        &id,
        &NODE_2
    ));
    ecdsa_pool.apply_changes(change_set);

    // Since we already issued support for the dealing, it should not produce any
    // more support.
    let change_set = pre_signer.send_dealing_support(&ecdsa_pool.pool, &block_reader);
    assert!(change_set.is_empty());
}

// Tests that support shares are not sent by nodes not in the receiver list for
// the transcript
#[test]
fn test_ecdsa_non_receivers_dont_send_support() {
    let (mut ecdsa_pool, pre_signer) = create_dependencies();
    let id = IDkgTranscriptId(1);

    // We are not in the receiver list for the transcript
    let dealing = create_dealing(id, NODE_2);
    let change_set = vec![EcdsaChangeAction::AddToValidated(
        EcdsaMessage::EcdsaDealing(dealing),
    )];
    ecdsa_pool.apply_changes(change_set);
    let t = create_transcript_param(id, &[NODE_2], &[NODE_3]);

    let block_reader = EcdsaBlockReader::new(Height::from(100), vec![t]);
    let change_set = pre_signer.send_dealing_support(&ecdsa_pool.pool, &block_reader);
    assert!(change_set.is_empty());
}

// Tests that support shares are not sent for transcripts we are not building
#[test]
fn test_ecdsa_no_support_for_missing_transcript_params() {
    let (mut ecdsa_pool, pre_signer) = create_dependencies();
    let id = IDkgTranscriptId(1);

    let dealing = create_dealing(id, NODE_2);
    let change_set = vec![EcdsaChangeAction::AddToValidated(
        EcdsaMessage::EcdsaDealing(dealing),
    )];
    ecdsa_pool.apply_changes(change_set);

    let block_reader = EcdsaBlockReader::new(Height::from(100), vec![]);
    let change_set = pre_signer.send_dealing_support(&ecdsa_pool.pool, &block_reader);
    assert!(change_set.is_empty());
}

// Tests that received support shares are accepted/processed for eligible
// transcript requests, and others dealings are either deferred or dropped.
#[test]
fn test_ecdsa_validate_dealing_support() {
    let (mut ecdsa_pool, pre_signer) = create_dependencies();
    let (id_1, id_2, id_3, id_4) = (
        IDkgTranscriptId(1),
        IDkgTranscriptId(2),
        IDkgTranscriptId(3),
        IDkgTranscriptId(4),
    );

    // Set up the transcript creation request
    // The block requests transcripts 2, 3
    let t2 = create_transcript_param(id_2, &[NODE_2], &[NODE_3]);
    let t3 = create_transcript_param(id_3, &[NODE_2], &[NODE_3]);
    let block_reader = EcdsaBlockReader::new(Height::from(100), vec![t2, t3]);

    // Set up the ECDSA pool
    // A share from a node ahead of us (share deferred)
    let mut support = create_support(id_1, NODE_2, NODE_3);
    support.content.requested_height = Height::from(200);
    ecdsa_pool.insert(EcdsaMessage::EcdsaDealingSupport(support));

    // A dealing for a transcript that is requested by finalized block,
    // and we already have the dealing(share accepted)
    let mut dealing = create_dealing(id_2, NODE_2);
    dealing.requested_height = Height::from(25);
    let change_set = vec![EcdsaChangeAction::AddToValidated(
        EcdsaMessage::EcdsaDealing(dealing),
    )];
    ecdsa_pool.apply_changes(change_set);

    let mut support = create_support(id_2, NODE_2, NODE_3);
    support.content.requested_height = Height::from(25);
    let msg_id_2 = ecdsa_pool.insert(EcdsaMessage::EcdsaDealingSupport(support));

    // A dealing for a transcript that is requested by finalized block,
    // but we don't have the dealing yet(share deferred)
    let mut support = create_support(id_3, NODE_2, NODE_3);
    support.content.requested_height = Height::from(10);
    ecdsa_pool.insert(EcdsaMessage::EcdsaDealingSupport(support));

    // A dealing for a transcript that is not requested by finalized block
    // (share dropped)
    let mut support = create_support(id_4, NODE_2, NODE_3);
    support.content.requested_height = Height::from(5);
    let msg_id_4 = ecdsa_pool.insert(EcdsaMessage::EcdsaDealingSupport(support));

    let change_set = pre_signer.validate_dealing_support(&ecdsa_pool.pool, &block_reader);
    assert_eq!(change_set.len(), 2);
    assert!(is_moved_to_validated(&change_set, &msg_id_2));
    assert!(is_removed_from_unvalidated(&change_set, &msg_id_4));
}

// Tests that duplicate support from a node for the same dealing
// are dropped.
#[test]
fn test_ecdsa_duplicate_support_from_node() {
    let (mut ecdsa_pool, pre_signer) = create_dependencies();
    let id = IDkgTranscriptId(1);

    // Set up the ECDSA pool
    // Validated pool has: support {transcript 2, dealer = NODE_2, signer = NODE_3}
    let dealing = create_dealing(id, NODE_2);
    let change_set = vec![EcdsaChangeAction::AddToValidated(
        EcdsaMessage::EcdsaDealing(dealing),
    )];
    ecdsa_pool.apply_changes(change_set);

    let support = create_support(id, NODE_2, NODE_3);
    let change_set = vec![EcdsaChangeAction::AddToValidated(
        EcdsaMessage::EcdsaDealingSupport(support),
    )];
    ecdsa_pool.apply_changes(change_set);

    // Unvalidated pool has: support {transcript 2, dealer = NODE_2, signer =
    // NODE_3}
    let mut support = create_support(id, NODE_2, NODE_3);
    support.content.requested_height = Height::from(100);
    let msg_id = ecdsa_pool.insert(EcdsaMessage::EcdsaDealingSupport(support));

    let t = create_transcript_param(id, &[NODE_2], &[NODE_3]);
    let block_reader = EcdsaBlockReader::new(Height::from(100), vec![t]);

    let change_set = pre_signer.validate_dealing_support(&ecdsa_pool.pool, &block_reader);
    assert_eq!(change_set.len(), 1);
    assert!(is_handle_invalid(&change_set, &msg_id));
}

// Tests that duplicate support from a node for the same dealing
// in the unvalidated pool are dropped.
#[test]
fn test_ecdsa_duplicate_support_from_node_in_batch() {
    let (mut ecdsa_pool, pre_signer) = create_dependencies();
    let id = IDkgTranscriptId(1);

    // Set up the ECDSA pool
    // Unvalidated pool has: support {transcript 2, dealer = NODE_2, signer =
    // NODE_3}
    let mut support = create_support(id, NODE_2, NODE_3);
    support.content.requested_height = Height::from(100);
    let msg_id_1_a = ecdsa_pool.insert(EcdsaMessage::EcdsaDealingSupport(support));

    // Unvalidated pool has: support {transcript 2, dealer = NODE_2, signer =
    // NODE_3}
    let mut support = create_support(id, NODE_2, NODE_3);
    support.content.requested_height = Height::from(10);
    let msg_id_1_b = ecdsa_pool.insert(EcdsaMessage::EcdsaDealingSupport(support));

    // Unvalidated pool has: support {transcript 2, dealer = NODE_2, signer =
    // NODE_4}
    let dealing = create_dealing(id, NODE_2);
    let change_set = vec![EcdsaChangeAction::AddToValidated(
        EcdsaMessage::EcdsaDealing(dealing),
    )];
    ecdsa_pool.apply_changes(change_set);

    let mut support = create_support(id, NODE_2, NODE_4);
    support.content.requested_height = Height::from(10);
    let msg_id_2 = ecdsa_pool.insert(EcdsaMessage::EcdsaDealingSupport(support));

    let t = create_transcript_param(id, &[NODE_2], &[NODE_3, NODE_4]);
    let block_reader = EcdsaBlockReader::new(Height::from(100), vec![t]);

    let change_set = pre_signer.validate_dealing_support(&ecdsa_pool.pool, &block_reader);
    assert_eq!(change_set.len(), 3);
    assert!(is_handle_invalid(&change_set, &msg_id_1_a));
    assert!(is_handle_invalid(&change_set, &msg_id_1_b));
    assert!(is_moved_to_validated(&change_set, &msg_id_2));
}

// Tests that support from a node that is not in the receiver list for the
// transcript are dropped.
#[test]
fn test_ecdsa_unexpected_support_from_node() {
    let (mut ecdsa_pool, pre_signer) = create_dependencies();
    let id = IDkgTranscriptId(1);

    // Unvalidated pool has: support {transcript 2, dealer = NODE_2, signer =
    // NODE_3}
    let mut support = create_support(id, NODE_2, NODE_3);
    support.content.requested_height = Height::from(10);
    let msg_id = ecdsa_pool.insert(EcdsaMessage::EcdsaDealingSupport(support));

    // NODE_3 is not in the receiver list
    let t = create_transcript_param(id, &[NODE_2], &[NODE_4]);
    let block_reader = EcdsaBlockReader::new(Height::from(100), vec![t]);
    let change_set = pre_signer.validate_dealing_support(&ecdsa_pool.pool, &block_reader);
    assert_eq!(change_set.len(), 1);
    assert!(is_handle_invalid(&change_set, &msg_id));
}
