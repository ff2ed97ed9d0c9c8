use pre_signer::action::Action;
use pre_signer::batch::{contains_key, duplicate_keys, DealingKey, SupportKey};
use pre_signer::block_reader::EcdsaBlockReader;
use pre_signer::changes::{
    created_dealing_changes, failed_private_verification_changes, invalid_change, no_change,
    one_change, signed_support_changes, verified_dealing_changes, verified_support_changes,
};
use pre_signer::crypto::{ConsensusCrypto, CryptoError};
use pre_signer::params::{IDkgTranscriptParams, NodeSet};
use pre_signer::pool::EcdsaPool;
use pre_signer::pre_signer::EcdsaPreSignerImpl;
use pre_signer::reason::InvalidReason;
use pre_signer::round_robin::RoundRobin;
use pre_signer::types::{
    clone_bytes, AlgorithmId, EcdsaChangeAction, EcdsaDealing, EcdsaDealingSupport, EcdsaMessage,
    EcdsaMessageId, Height, IDkgDealing, IDkgTranscriptId, IDkgTranscriptOperation,
    MultiSignatureShare, NodeId, RegistryVersion,
};

const ME: NodeId = NodeId(1);
const PEER: NodeId = NodeId(2);
const OTHER: NodeId = NodeId(3);

// A capability that answers as it was told to
struct Scripted {
    create: Result<Vec<u8>, CryptoError>,
    public: Result<(), CryptoError>,
    private: Result<(), CryptoError>,
    sign: Result<Vec<u8>, CryptoError>,
    verify: Result<(), CryptoError>,
}

fn all_ok() -> Scripted {
    Scripted { create: Ok(vec![1, 2, 3]), public: Ok(()), private: Ok(()), sign: Ok(vec![4, 5]), verify: Ok(()) }
}

impl ConsensusCrypto for Scripted {
    fn create_dealing(&self, _params: &IDkgTranscriptParams) -> Result<IDkgDealing, CryptoError> {
        self.create.clone().map(|bytes| IDkgDealing { bytes })
    }

    fn verify_dealing_public(
        &self,
        _params: &IDkgTranscriptParams,
        _dealing: &IDkgDealing,
    ) -> Result<(), CryptoError> {
        self.public
    }

    fn verify_dealing_private(
        &self,
        _params: &IDkgTranscriptParams,
        _dealing: &IDkgDealing,
    ) -> Result<(), CryptoError> {
        self.private
    }

    fn sign(
        &self,
        _dealing: &EcdsaDealing,
        _signer: NodeId,
        _registry_version: RegistryVersion,
    ) -> Result<Vec<u8>, CryptoError> {
        self.sign.clone()
    }

    fn verify(
        &self,
        _support: &EcdsaDealingSupport,
        _registry_version: RegistryVersion,
    ) -> Result<(), CryptoError> {
        self.verify
    }
}

fn params(id: u64, dealers: &[NodeId], receivers: &[NodeId]) -> IDkgTranscriptParams {
    IDkgTranscriptParams::new(
        IDkgTranscriptId(id),
        NodeSet::from_nodes(&dealers.to_vec()),
        NodeSet::from_nodes(&receivers.to_vec()),
        RegistryVersion::from(7),
        AlgorithmId::ThresholdEcdsaSecp256k1,
        IDkgTranscriptOperation::Random,
    )
}

fn dealing(id: u64, dealer: NodeId, height: u64) -> EcdsaDealing {
    EcdsaDealing {
        requested_height: Height::from(height),
        dealer_id: dealer,
        transcript_id: IDkgTranscriptId(id),
        dealing: IDkgDealing { bytes: vec![8] },
    }
}

fn support(id: u64, dealer: NodeId, signer: NodeId, height: u64) -> EcdsaDealingSupport {
    EcdsaDealingSupport {
        content: dealing(id, dealer, height),
        signature: MultiSignatureShare { signer, share: vec![6] },
    }
}

fn invalid(id: u64, reason: &str) -> EcdsaChangeAction {
    EcdsaChangeAction::HandleInvalid(EcdsaMessageId(id), reason.to_string())
}

fn engine(crypto: Scripted) -> EcdsaPreSignerImpl<Scripted> {
    EcdsaPreSignerImpl::new(ME, crypto)
}

#[test]
fn reasons_have_their_words() {
    assert_eq!(InvalidReason::DuplicateDealingInBatch.message(), "duplicate in batch");
    assert_eq!(InvalidReason::UnexpectedDealer.message(), "unexpected dealer");
    assert_eq!(InvalidReason::DuplicateDealing.message(), "duplicate");
    assert_eq!(InvalidReason::DealingPermanentError.message(), "permanent error");
    assert_eq!(
        InvalidReason::PrivateVerificationPermanentError.message(),
        "private verification permanent error"
    );
    assert_eq!(InvalidReason::DuplicateSupportInBatch.message(), "duplicate in batch");
    assert_eq!(InvalidReason::UnexpectedSupport.message(), "unexpected support");
    assert_eq!(InvalidReason::DuplicateSupport.message(), "duplicate support");
    assert_eq!(InvalidReason::SupportValidationFailed.message(), "support validation failed");
}

#[test]
fn node_set_is_ordered_and_without_duplicates() {
    let set = NodeSet::from_nodes(&vec![NodeId(5), NodeId(2), NodeId(9), NodeId(2), NodeId(5)]);
    assert_eq!(set.len(), 3);
    assert_eq!(set.position(NodeId(2)), Some(0));
    assert_eq!(set.position(NodeId(5)), Some(1));
    assert_eq!(set.position(NodeId(9)), Some(2));
    assert_eq!(set.position(NodeId(3)), None);
}

#[test]
fn node_set_insert_reports_new_members() {
    let mut set = NodeSet::new();
    assert_eq!(set.len(), 0);
    assert!(set.insert(NodeId(4)));
    assert!(set.insert(NodeId(1)));
    assert!(!set.insert(NodeId(4)));
    assert_eq!(set.len(), 2);
    assert_eq!(set.position(NodeId(1)), Some(0));
    assert_eq!(set.position(NodeId(4)), Some(1));
}

#[test]
fn duplicate_keys_are_those_that_occur_twice() {
    let key = |t: u64, d: u64| DealingKey { transcript_id: IDkgTranscriptId(t), dealer_id: NodeId(d) };
    let keys = vec![key(1, 1), key(2, 1), key(1, 1), key(3, 3), key(2, 1), key(1, 1), key(1, 2)];
    let duplicates = duplicate_keys(&keys);
    assert_eq!(duplicates, vec![key(1, 1), key(2, 1)]);
    assert!(contains_key(&duplicates, &key(2, 1)));
    assert!(!contains_key(&duplicates, &key(3, 3)));
    assert!(!contains_key(&duplicates, &key(1, 2)));
    assert_eq!(duplicate_keys(&Vec::<DealingKey>::new()), vec![]);
}

#[test]
fn support_keys_differ_by_signer() {
    let key = |s: u64| SupportKey {
        transcript_id: IDkgTranscriptId(1),
        dealer_id: NodeId(2),
        signer: NodeId(s),
    };
    assert_eq!(duplicate_keys(&vec![key(3), key(4), key(3)]), vec![key(3)]);
    assert_eq!(duplicate_keys(&vec![key(3), key(4)]), vec![]);
}

#[test]
fn requests_are_found_first_and_last() {
    let reader = EcdsaBlockReader::new(
        Height::from(5),
        vec![params(1, &[ME], &[ME]), params(2, &[ME], &[ME]), params(1, &[PEER], &[PEER])],
    );
    assert_eq!(reader.height(), Height(5));
    assert_eq!(reader.requested_transcripts().len(), 3);
    assert_eq!(reader.find_request(IDkgTranscriptId(1)), Some(0));
    assert_eq!(reader.find_last_request(IDkgTranscriptId(1)), Some(2));
    assert_eq!(reader.find_request(IDkgTranscriptId(2)), Some(1));
    assert_eq!(reader.find_last_request(IDkgTranscriptId(2)), Some(1));
    assert_eq!(reader.find_request(IDkgTranscriptId(3)), None);
    assert_eq!(reader.find_last_request(IDkgTranscriptId(3)), None);
}

#[test]
fn action_takes_the_first_request() {
    let first = params(1, &[ME], &[ME]);
    let second = params(1, &[PEER], &[PEER]);
    let reader = EcdsaBlockReader::new(Height::from(100), vec![first.clone(), second]);
    assert_eq!(
        Action::action(&reader, Height::from(100), &IDkgTranscriptId(1)),
        Action::Process(&first)
    );
    assert_eq!(Action::action(&reader, Height::from(101), &IDkgTranscriptId(1)), Action::Defer);
    assert_eq!(Action::action(&reader, Height::from(0), &IDkgTranscriptId(9)), Action::Drop);
}

#[test]
fn copies_hold_the_same() {
    assert_eq!(clone_bytes(&vec![1, 2, 3]), vec![1, 2, 3]);
    assert_eq!(clone_bytes(&vec![]), Vec::<u8>::new());
    let held = support(4, PEER, ME, 12);
    assert_eq!(held.clone(), held);
    let message = EcdsaMessage::EcdsaDealingSupport(held);
    assert_eq!(message.clone(), message);
    let message = EcdsaMessage::EcdsaDealing(dealing(4, PEER, 12));
    assert_eq!(message.clone(), message);
}

#[test]
fn crypto_errors_tell_their_kind() {
    assert!(CryptoError::permanent().is_replicated());
    assert!(!CryptoError::transient().is_replicated());
}

#[test]
fn changes_for_each_answer() {
    let id = EcdsaMessageId(44);
    assert_eq!(no_change(), vec![]);
    assert_eq!(
        one_change(EcdsaChangeAction::RemoveUnvalidated(id)),
        vec![EcdsaChangeAction::RemoveUnvalidated(id)]
    );
    assert_eq!(invalid_change(id, InvalidReason::DuplicateDealing), vec![invalid(44, "duplicate")]);

    assert_eq!(
        created_dealing_changes(
            ME,
            Height::from(31),
            IDkgTranscriptId(6),
            Ok(IDkgDealing { bytes: vec![1] })
        ),
        vec![EcdsaChangeAction::AddToValidated(EcdsaMessage::EcdsaDealing(EcdsaDealing {
            requested_height: Height(31),
            dealer_id: ME,
            transcript_id: IDkgTranscriptId(6),
            dealing: IDkgDealing { bytes: vec![1] },
        }))]
    );
    assert_eq!(
        created_dealing_changes(ME, Height::from(31), IDkgTranscriptId(6), Err(CryptoError::permanent())),
        vec![]
    );
    assert_eq!(
        created_dealing_changes(ME, Height::from(31), IDkgTranscriptId(6), Err(CryptoError::transient())),
        vec![]
    );

    assert_eq!(verified_dealing_changes(id, Ok(())), vec![EcdsaChangeAction::MoveToValidated(id)]);
    assert_eq!(
        verified_dealing_changes(id, Err(CryptoError::permanent())),
        vec![invalid(44, "permanent error")]
    );
    assert_eq!(verified_dealing_changes(id, Err(CryptoError::transient())), vec![]);

    assert_eq!(
        failed_private_verification_changes(id, CryptoError::permanent()),
        vec![invalid(44, "private verification permanent error")]
    );
    assert_eq!(failed_private_verification_changes(id, CryptoError::transient()), vec![]);

    let held = dealing(6, PEER, 3);
    assert_eq!(
        signed_support_changes(ME, &held, Ok(vec![5, 5])),
        vec![EcdsaChangeAction::AddToValidated(EcdsaMessage::EcdsaDealingSupport(
            EcdsaDealingSupport {
                content: dealing(6, PEER, 3),
                signature: MultiSignatureShare { signer: ME, share: vec![5, 5] },
            }
        ))]
    );
    assert_eq!(signed_support_changes(ME, &held, Err(CryptoError::permanent())), vec![]);

    assert_eq!(verified_support_changes(id, Ok(())), vec![EcdsaChangeAction::MoveToValidated(id)]);
    assert_eq!(
        verified_support_changes(id, Err(CryptoError::permanent())),
        vec![invalid(44, "support validation failed")]
    );
    assert_eq!(
        verified_support_changes(id, Err(CryptoError::transient())),
        vec![invalid(44, "support validation failed")]
    );
}

#[test]
fn sent_dealing_carries_the_block_height() {
    let pre_signer = engine(all_ok());
    let pool = EcdsaPool::new();
    let reader = EcdsaBlockReader::new(Height::from(77), vec![params(3, &[ME, PEER], &[OTHER])]);
    assert_eq!(
        pre_signer.send_dealings(&pool, &reader),
        vec![EcdsaChangeAction::AddToValidated(EcdsaMessage::EcdsaDealing(EcdsaDealing {
            requested_height: Height(77),
            dealer_id: ME,
            transcript_id: IDkgTranscriptId(3),
            dealing: IDkgDealing { bytes: vec![1, 2, 3] },
        }))]
    );
}

#[test]
fn failed_creation_sends_nothing() {
    let pool = EcdsaPool::new();
    let reader = EcdsaBlockReader::new(Height::from(77), vec![params(3, &[ME], &[OTHER])]);
    let mut crypto = all_ok();
    crypto.create = Err(CryptoError::permanent());
    assert_eq!(engine(crypto).send_dealings(&pool, &reader), vec![]);
    let mut crypto = all_ok();
    crypto.create = Err(CryptoError::transient());
    assert_eq!(engine(crypto).send_dealings(&pool, &reader), vec![]);
}

#[test]
fn issued_dealings_and_supports_are_found() {
    let pre_signer = engine(all_ok());
    let mut pool = EcdsaPool::new();
    pool.validated.dealings.push((EcdsaMessageId(1), dealing(3, PEER, 10)));
    pool.validated.dealing_support.push((EcdsaMessageId(2), support(3, PEER, OTHER, 10)));
    pool.unvalidated.dealings.push((EcdsaMessageId(3), dealing(4, PEER, 10)));
    assert!(pre_signer.has_dealer_issued_dealing(&pool, &IDkgTranscriptId(3), &PEER));
    assert!(!pre_signer.has_dealer_issued_dealing(&pool, &IDkgTranscriptId(3), &OTHER));
    assert!(!pre_signer.has_dealer_issued_dealing(&pool, &IDkgTranscriptId(4), &PEER));
    assert!(pre_signer.has_node_issued_dealing_support(&pool, &IDkgTranscriptId(3), &PEER, &OTHER));
    assert!(!pre_signer.has_node_issued_dealing_support(&pool, &IDkgTranscriptId(3), &PEER, &ME));
    assert!(!pre_signer.has_node_issued_dealing_support(&pool, &IDkgTranscriptId(3), &OTHER, &OTHER));
    assert_eq!(pool.validated().dealings.len(), 1);
    assert_eq!(pool.unvalidated().dealings.len(), 1);
}

#[test]
fn dealings_are_triaged_in_pool_order() {
    let mut pool = EcdsaPool::new();
    pool.validated.dealings.push((EcdsaMessageId(1), dealing(2, OTHER, 10)));
    pool.unvalidated.dealings.push((EcdsaMessageId(10), dealing(9, PEER, 5)));
    pool.unvalidated.dealings.push((EcdsaMessageId(11), dealing(2, PEER, 101)));
    pool.unvalidated.dealings.push((EcdsaMessageId(12), dealing(2, NodeId(8), 100)));
    pool.unvalidated.dealings.push((EcdsaMessageId(13), dealing(2, OTHER, 100)));
    pool.unvalidated.dealings.push((EcdsaMessageId(14), dealing(2, ME, 0)));
    let reader = EcdsaBlockReader::new(Height::from(100), vec![params(2, &[ME, PEER, OTHER], &[ME])]);
    assert_eq!(
        engine(all_ok()).validate_dealings(&pool, &reader),
        vec![
            EcdsaChangeAction::RemoveUnvalidated(EcdsaMessageId(10)),
            invalid(12, "unexpected dealer"),
            invalid(13, "duplicate"),
            EcdsaChangeAction::MoveToValidated(EcdsaMessageId(14)),
        ]
    );
}

#[test]
fn failed_public_verification_is_permanent_or_retried() {
    let mut pool = EcdsaPool::new();
    pool.unvalidated.dealings.push((EcdsaMessageId(14), dealing(2, PEER, 0)));
    let reader = EcdsaBlockReader::new(Height::from(100), vec![params(2, &[PEER], &[ME])]);
    let mut crypto = all_ok();
    crypto.public = Err(CryptoError::permanent());
    assert_eq!(engine(crypto).validate_dealings(&pool, &reader), vec![invalid(14, "permanent error")]);
    let mut crypto = all_ok();
    crypto.public = Err(CryptoError::transient());
    assert_eq!(engine(crypto).validate_dealings(&pool, &reader), vec![]);
}

#[test]
fn duplicates_in_batch_are_invalid_whatever_their_height() {
    let mut pool = EcdsaPool::new();
    pool.unvalidated.dealings.push((EcdsaMessageId(20), dealing(2, PEER, 500)));
    pool.unvalidated.dealings.push((EcdsaMessageId(21), dealing(7, PEER, 1)));
    pool.unvalidated.dealings.push((EcdsaMessageId(22), dealing(2, PEER, 1)));
    let reader = EcdsaBlockReader::new(Height::from(100), vec![params(2, &[PEER], &[ME])]);
    assert_eq!(
        engine(all_ok()).validate_dealings(&pool, &reader),
        vec![
            invalid(20, "duplicate in batch"),
            EcdsaChangeAction::RemoveUnvalidated(EcdsaMessageId(21)),
            invalid(22, "duplicate in batch"),
        ]
    );

    let mut pool = EcdsaPool::new();
    pool.unvalidated.dealing_support.push((EcdsaMessageId(30), support(2, PEER, OTHER, 500)));
    pool.unvalidated.dealing_support.push((EcdsaMessageId(31), support(2, PEER, OTHER, 1)));
    assert_eq!(
        engine(all_ok()).validate_dealing_support(&pool, &reader),
        vec![invalid(30, "duplicate in batch"), invalid(31, "duplicate in batch")]
    );
}

#[test]
fn sent_support_holds_the_dealing_and_our_share() {
    let mut pool = EcdsaPool::new();
    pool.validated.dealings.push((EcdsaMessageId(1), dealing(3, PEER, 10)));
    let reader = EcdsaBlockReader::new(Height::from(100), vec![params(3, &[PEER], &[ME])]);
    assert_eq!(
        engine(all_ok()).send_dealing_support(&pool, &reader),
        vec![EcdsaChangeAction::AddToValidated(EcdsaMessage::EcdsaDealingSupport(
            EcdsaDealingSupport {
                content: dealing(3, PEER, 10),
                signature: MultiSignatureShare { signer: ME, share: vec![4, 5] },
            }
        ))]
    );
}

#[test]
fn failed_private_verification_is_permanent_or_retried() {
    let mut pool = EcdsaPool::new();
    pool.validated.dealings.push((EcdsaMessageId(1), dealing(3, PEER, 10)));
    let reader = EcdsaBlockReader::new(Height::from(100), vec![params(3, &[PEER], &[ME])]);
    let mut crypto = all_ok();
    crypto.private = Err(CryptoError::permanent());
    assert_eq!(
        engine(crypto).send_dealing_support(&pool, &reader),
        vec![invalid(1, "private verification permanent error")]
    );
    let mut crypto = all_ok();
    crypto.private = Err(CryptoError::transient());
    assert_eq!(engine(crypto).send_dealing_support(&pool, &reader), vec![]);
    let mut crypto = all_ok();
    crypto.sign = Err(CryptoError::permanent());
    assert_eq!(engine(crypto).send_dealing_support(&pool, &reader), vec![]);
}

#[test]
fn support_goes_by_the_last_request_for_a_transcript() {
    let mut pool = EcdsaPool::new();
    pool.validated.dealings.push((EcdsaMessageId(1), dealing(3, PEER, 10)));
    let reader = EcdsaBlockReader::new(
        Height::from(100),
        vec![params(3, &[PEER], &[ME]), params(3, &[PEER], &[OTHER])],
    );
    assert_eq!(engine(all_ok()).send_dealing_support(&pool, &reader), vec![]);
    let reader = EcdsaBlockReader::new(
        Height::from(100),
        vec![params(3, &[PEER], &[OTHER]), params(3, &[PEER], &[ME])],
    );
    assert_eq!(engine(all_ok()).send_dealing_support(&pool, &reader).len(), 1);
}

#[test]
fn supports_are_triaged_in_pool_order() {
    let mut pool = EcdsaPool::new();
    pool.validated.dealings.push((EcdsaMessageId(1), dealing(2, PEER, 10)));
    pool.validated.dealing_support.push((EcdsaMessageId(2), support(2, PEER, OTHER, 10)));
    pool.unvalidated.dealing_support.push((EcdsaMessageId(10), support(2, PEER, ME, 25)));
    pool.unvalidated.dealing_support.push((EcdsaMessageId(11), support(3, PEER, ME, 10)));
    pool.unvalidated.dealing_support.push((EcdsaMessageId(12), support(4, PEER, ME, 5)));
    pool.unvalidated.dealing_support.push((EcdsaMessageId(13), support(2, PEER, NodeId(8), 5)));
    pool.unvalidated.dealing_support.push((EcdsaMessageId(14), support(2, PEER, OTHER, 5)));
    pool.unvalidated.dealing_support.push((EcdsaMessageId(15), support(2, PEER, PEER, 101)));
    let reader = EcdsaBlockReader::new(
        Height::from(100),
        vec![params(2, &[PEER], &[ME, PEER, OTHER]), params(3, &[PEER], &[ME])],
    );
    assert_eq!(
        engine(all_ok()).validate_dealing_support(&pool, &reader),
        vec![
            EcdsaChangeAction::MoveToValidated(EcdsaMessageId(10)),
            EcdsaChangeAction::RemoveUnvalidated(EcdsaMessageId(12)),
            invalid(13, "unexpected support"),
            invalid(14, "duplicate support"),
        ]
    );
}

#[test]
fn failed_support_verification_is_invalid_in_either_case() {
    let mut pool = EcdsaPool::new();
    pool.validated.dealings.push((EcdsaMessageId(1), dealing(2, PEER, 10)));
    pool.unvalidated.dealing_support.push((EcdsaMessageId(10), support(2, PEER, ME, 25)));
    let reader = EcdsaBlockReader::new(Height::from(100), vec![params(2, &[PEER], &[ME])]);
    let mut crypto = all_ok();
    crypto.verify = Err(CryptoError::permanent());
    assert_eq!(
        engine(crypto).validate_dealing_support(&pool, &reader),
        vec![invalid(10, "support validation failed")]
    );
    let mut crypto = all_ok();
    crypto.verify = Err(CryptoError::transient());
    assert_eq!(
        engine(crypto).validate_dealing_support(&pool, &reader),
        vec![invalid(10, "support validation failed")]
    );
}

#[test]
fn round_robin_serves_the_calls_in_turn() {
    let mut schedule = RoundRobin::new();
    let call = |index: usize| -> Vec<u8> {
        if index == 0 {
            vec![]
        } else {
            vec![index as u8]
        }
    };
    assert_eq!(schedule.call_next(3, call), vec![1]);
    assert_eq!(schedule.call_next(3, call), vec![2]);
    assert_eq!(schedule.call_next(3, call), vec![1]);
    assert_eq!(schedule.call_next(3, call), vec![2]);
}

#[test]
fn round_robin_returns_nothing_when_no_call_does() {
    let mut schedule = RoundRobin::default();
    let idle = |_index: usize| -> Vec<u8> { vec![] };
    assert_eq!(schedule.call_next(4, idle), vec![]);
    assert_eq!(schedule, RoundRobin::new());
    let busy = |index: usize| -> Vec<u8> { vec![index as u8] };
    assert_eq!(schedule.call_next(4, busy), vec![0]);
    assert_eq!(schedule.call_next(4, idle), vec![]);
    assert_eq!(schedule.call_next(4, busy), vec![1]);
    assert_eq!(schedule.call_next(1, busy), vec![0]);
    assert_eq!(schedule.call_next(1, busy), vec![0]);
}

// A pool and a block for which each of the four phases proposes one change
fn busy_pool() -> (EcdsaPool, EcdsaBlockReader) {
    let mut pool = EcdsaPool::new();
    pool.validated.dealings.push((EcdsaMessageId(1), dealing(2, PEER, 10)));
    pool.unvalidated.dealings.push((EcdsaMessageId(2), dealing(9, PEER, 10)));
    pool.unvalidated.dealing_support.push((EcdsaMessageId(3), support(9, PEER, OTHER, 10)));
    let reader = EcdsaBlockReader::new(Height::from(100), vec![params(2, &[ME, PEER], &[ME])]);
    (pool, reader)
}

fn phase_of(changes: &[EcdsaChangeAction], pool: &EcdsaPool) -> usize {
    assert_eq!(changes.len(), 1);
    match &changes[0] {
        EcdsaChangeAction::AddToValidated(EcdsaMessage::EcdsaDealing(_)) => 0,
        EcdsaChangeAction::AddToValidated(EcdsaMessage::EcdsaDealingSupport(_)) => 2,
        EcdsaChangeAction::RemoveUnvalidated(id) => {
            if *id == pool.unvalidated.dealings[0].0 {
                1
            } else {
                3
            }
        }
        other => panic!("unexpected change {:?}", other),
    }
}

#[test]
fn each_phase_is_served_in_a_quarter_of_the_calls() {
    let (pool, reader) = busy_pool();
    let mut pre_signer = engine(all_ok());
    let mut served = [0usize; 4];
    let mut order = Vec::new();
    for _ in 0..10 {
        let changes = pre_signer.on_state_change(&pool, &reader);
        let phase = phase_of(&changes, &pool);
        served[phase] += 1;
        order.push(phase);
    }
    assert_eq!(order, vec![0, 1, 2, 3, 0, 1, 2, 3, 0, 1]);
    assert_eq!(served, [3, 3, 2, 2]);
    for phase in 0..4 {
        assert!(served[phase] >= 10 / 4);
    }
}

#[test]
fn phases_without_work_are_passed_over() {
    let mut pool = EcdsaPool::new();
    pool.unvalidated.dealing_support.push((EcdsaMessageId(3), support(9, PEER, OTHER, 10)));
    let reader = EcdsaBlockReader::new(Height::from(100), vec![]);
    let mut pre_signer = engine(all_ok());
    for _ in 0..3 {
        assert_eq!(
            pre_signer.on_state_change(&pool, &reader),
            vec![EcdsaChangeAction::RemoveUnvalidated(EcdsaMessageId(3))]
        );
    }
    assert_eq!(pre_signer.send_dealings(&pool, &reader), vec![]);
    assert_eq!(pre_signer.validate_dealings(&pool, &reader), vec![]);
    assert_eq!(pre_signer.send_dealing_support(&pool, &reader), vec![]);
    assert_eq!(
        pre_signer.validate_dealing_support(&pool, &reader),
        vec![EcdsaChangeAction::RemoveUnvalidated(EcdsaMessageId(3))]
    );
}

#[test]
fn an_idle_call_is_followed_by_an_idle_call() {
    let mut pool = EcdsaPool::new();
    pool.validated.dealings.push((EcdsaMessageId(1), dealing(2, ME, 10)));
    pool.unvalidated.dealings.push((EcdsaMessageId(2), dealing(2, PEER, 101)));
    pool.unvalidated.dealing_support.push((EcdsaMessageId(3), support(2, PEER, OTHER, 10)));
    let reader = EcdsaBlockReader::new(Height::from(100), vec![params(2, &[ME, PEER], &[OTHER])]);
    let mut pre_signer = engine(all_ok());
    assert_eq!(pre_signer.on_state_change(&pool, &reader), vec![]);
    assert_eq!(pre_signer.on_state_change(&pool, &reader), vec![]);
    // The cursor is where it was: the first phase with work is served next.
    pool.unvalidated.dealings.push((EcdsaMessageId(4), dealing(7, PEER, 1)));
    assert_eq!(
        pre_signer.on_state_change(&pool, &reader),
        vec![EcdsaChangeAction::RemoveUnvalidated(EcdsaMessageId(4))]
    );
}

#[test]
fn no_change_is_about_a_message_from_above_the_block() {
    let mut pool = EcdsaPool::new();
    pool.unvalidated.dealings.push((EcdsaMessageId(2), dealing(2, PEER, 101)));
    pool.unvalidated.dealings.push((EcdsaMessageId(3), dealing(9, PEER, 101)));
    pool.unvalidated.dealing_support.push((EcdsaMessageId(4), support(2, PEER, OTHER, 101)));
    pool.unvalidated.dealing_support.push((EcdsaMessageId(5), support(9, PEER, NodeId(8), 101)));
    let reader = EcdsaBlockReader::new(Height::from(100), vec![params(2, &[PEER], &[OTHER])]);
    let pre_signer = engine(all_ok());
    assert_eq!(pre_signer.validate_dealings(&pool, &reader), vec![]);
    assert_eq!(pre_signer.validate_dealing_support(&pool, &reader), vec![]);
}

#[test]
fn every_entry_gets_at_most_one_change() {
    let mut pool = EcdsaPool::new();
    pool.validated.dealings.push((EcdsaMessageId(1), dealing(2, OTHER, 10)));
    for (n, (t, d, h)) in [(2, PEER, 10), (2, PEER, 11), (2, OTHER, 1), (3, PEER, 1), (2, ME, 200)]
        .into_iter()
        .enumerate()
    {
        pool.unvalidated.dealings.push((EcdsaMessageId(100 + n as u64), dealing(t, d, h)));
    }
    let reader = EcdsaBlockReader::new(Height::from(100), vec![params(2, &[ME, PEER, OTHER], &[ME])]);
    let changes = engine(all_ok()).validate_dealings(&pool, &reader);
    for (id, _) in pool.unvalidated.dealings.iter() {
        let about = changes
            .iter()
            .filter(|change| match change {
                EcdsaChangeAction::MoveToValidated(other)
                | EcdsaChangeAction::RemoveUnvalidated(other)
                | EcdsaChangeAction::HandleInvalid(other, _) => other == id,
                EcdsaChangeAction::AddToValidated(_) => false,
            })
            .count();
        assert!(about <= 1);
    }
    assert_eq!(changes.len(), 4);
}
