//! The pre-signature process manager: on each call it reads the latest
//! finalized block and the pool, and proposes the changes of one of its four
//! phases.

use crate::action::Action;
use crate::batch::{
    contains_key, duplicate_keys, lemma_duplicate_in_batch, occurs_twice, DealingKey, SupportKey,
};
use crate::block_reader::EcdsaBlockReader;
use crate::changes::{
    created_dealing_changes, failed_private_verification_changes, invalid_change, no_change,
    one_change, signed_support_changes, verified_dealing_changes, verified_support_changes,
};
use crate::crypto::{created_view, signed_view, ConsensusCrypto, CryptoError};
use crate::params::IDkgTranscriptParams;
use crate::pool::{dealing_matches, support_matches, EcdsaPool};
use crate::reason::InvalidReason;
use crate::round_robin::{returns_nothing, served, RoundRobin};
use crate::tick::{is_tick, may_run_phase, tick_after, PHASES};
use crate::types::{
    change_set_view, emitted, EcdsaChangeAction, EcdsaChangeActionView, EcdsaChangeSet,
    EcdsaDealing, EcdsaDealingSupport, EcdsaMessageId, IDkgTranscriptId, NodeId,
};
use crate::verdict::{
    as_changes, created_dealing_verdict, created_support_verdict, dealing_answer, dealing_keys,
    dealing_verdict, dealing_verdicts, lemma_emitted_push, lemma_valid_dealings, may_send_dealing_support,
    may_send_dealings, may_validate_dealing_support, may_validate_dealings, own_dealing_answer,
    own_dealing_verdict, own_dealing_verdicts, own_support_answer, own_support_verdict,
    own_support_verdicts, support_answer, support_keys, support_verdict, support_verdicts,
    verified_dealing_verdict, verified_support_verdict,
};
use vstd::prelude::*;

verus! {

/// The engine of one replica.
pub struct EcdsaPreSignerImpl<C: ConsensusCrypto> {
    pub node_id: NodeId,
    pub crypto: C,
    pub schedule: RoundRobin,
}

/// The view of a change set grows with the set.
pub proof fn lemma_change_set_view_add(first: Seq<EcdsaChangeAction>, second: Seq<EcdsaChangeAction>)
    ensures
        change_set_view(first + second) == change_set_view(first) + change_set_view(second),
{
    assert(change_set_view(first + second) =~= change_set_view(first) + change_set_view(second));
}

impl<C: ConsensusCrypto> EcdsaPreSignerImpl<C> {
    /// The engine of the replica `node_id`, which starts with its first phase.
    pub fn new(node_id: NodeId, crypto: C) -> (engine: Self)
        ensures
            engine.node_id == node_id,
            engine.crypto == crypto,
            engine.phase() == 0,
    {
        EcdsaPreSignerImpl { node_id, crypto, schedule: RoundRobin::new() }
    }

    /// The phase that the next call tries first.
    pub open spec fn phase(&self) -> int {
        self.schedule.cursor() % 4
    }

    /// Runs the phase of the given number.
    fn run_phase(
        &self,
        ecdsa_pool: &EcdsaPool,
        block_reader: &EcdsaBlockReader,
        phase: usize,
    ) -> (changes: EcdsaChangeSet)
        requires
            phase < PHASES,
        ensures
            may_run_phase(
                &self.crypto,
                self.node_id,
                ecdsa_pool,
                block_reader,
                phase as int,
                change_set_view(changes@),
            ),
    {
        if phase == 0 {
            self.send_dealings(ecdsa_pool, block_reader)
        } else if phase == 1 {
            self.validate_dealings(ecdsa_pool, block_reader)
        } else if phase == 2 {
            self.send_dealing_support(ecdsa_pool, block_reader)
        } else {
            self.validate_dealing_support(ecdsa_pool, block_reader)
        }
    }

    /// Serves the next phase of `schedule` that gives changes.
    fn call_next_phase(
        &self,
        schedule: &mut RoundRobin,
        ecdsa_pool: &EcdsaPool,
        block_reader: &EcdsaBlockReader,
    ) -> (ret: EcdsaChangeSet)
        ensures
            0 <= final(schedule).cursor() < 4,
            is_tick(
                &self.crypto,
                self.node_id,
                ecdsa_pool,
                block_reader,
                old(schedule).cursor() % 4,
                change_set_view(ret@),
                final(schedule).cursor(),
            ),
    {
        let ghost start = schedule.cursor() % 4;
        let call = |phase: usize| -> (changes: EcdsaChangeSet)
            requires
                phase < PHASES,
            ensures
                may_run_phase(
                    &self.crypto,
                    self.node_id,
                    ecdsa_pool,
                    block_reader,
                    phase as int,
                    change_set_view(changes@),
                ),
            { self.run_phase(ecdsa_pool, block_reader, phase) };
        let ret = schedule.call_next(PHASES, call);
        proof {
            let next = schedule.cursor();
            let skipped = choose|skipped: int| #[trigger]
                served(call, 4, start, skipped, ret, next);
            assert forall|j: int| 0 <= j < skipped implies may_run_phase(
                &self.crypto,
                self.node_id,
                ecdsa_pool,
                block_reader,
                #[trigger] ((start + j) % 4),
                Seq::empty(),
            ) by {
                let phase = (start + j) % 4;
                assert(returns_nothing(call, phase));
                let nothing = choose|nothing: EcdsaChangeSet| #[trigger]
                    call.ensures((phase as usize,), nothing) && nothing@.len() == 0;
                assert(change_set_view(nothing@) =~= Seq::empty());
            }
            if skipped == 4 {
                assert(change_set_view(ret@) =~= Seq::empty());
            }
            assert(tick_after(
                &self.crypto,
                self.node_id,
                ecdsa_pool,
                block_reader,
                start,
                skipped,
                change_set_view(ret@),
                next,
            ));
        }
        ret
    }

    /// Proposes the changes of one phase. The phases are tried in turn,
    /// starting with the one behind the phase that gave the changes of the
    /// call before, until one gives changes; if none of the four does, no
    /// change is proposed.
    pub fn on_state_change(
        &mut self,
        ecdsa_pool: &EcdsaPool,
        block_reader: &EcdsaBlockReader,
    ) -> (ret: EcdsaChangeSet)
        ensures
            final(self).node_id == old(self).node_id,
            final(self).crypto == old(self).crypto,
            is_tick(
                &old(self).crypto,
                old(self).node_id,
                ecdsa_pool,
                block_reader,
                old(self).phase(),
                change_set_view(ret@),
                final(self).phase(),
            ),
    {
        let mut schedule = self.schedule;
        let ret = self.call_next_phase(&mut schedule, ecdsa_pool, block_reader);
        self.schedule = schedule;
        ret
    }

    /// Checks whether the validated section holds a dealing of the dealer for
    /// the transcript.
    pub fn has_dealer_issued_dealing(
        &self,
        ecdsa_pool: &EcdsaPool,
        transcript_id: &IDkgTranscriptId,
        dealer_id: &NodeId,
    ) -> (issued: bool)
        ensures
            issued == ecdsa_pool.validated.has_dealing(*transcript_id, *dealer_id),
    {
        let dealings = &ecdsa_pool.validated().dealings;
        let mut i: usize = 0;
        while i < dealings.len()
            invariant
                i <= dealings.len(),
                dealings@ == ecdsa_pool.validated.dealings@,
                forall|k: int|
                    0 <= k < i ==> !dealing_matches(
                        #[trigger] dealings@[k].1,
                        *transcript_id,
                        *dealer_id,
                    ),
            decreases dealings.len() - i,
        {
            let dealing = &dealings[i].1;
            if dealing.dealer_id == *dealer_id && dealing.transcript_id == *transcript_id {
                return true;
            }
            i += 1;
        }
        false
    }

    /// Checks whether the validated section holds a support by the node for
    /// the dealing of the dealer for the transcript.
    pub fn has_node_issued_dealing_support(
        &self,
        ecdsa_pool: &EcdsaPool,
        transcript_id: &IDkgTranscriptId,
        dealer_id: &NodeId,
        node_id: &NodeId,
    ) -> (issued: bool)
        ensures
            issued == ecdsa_pool.validated.has_support(*transcript_id, *dealer_id, *node_id),
    {
        let supports = &ecdsa_pool.validated().dealing_support;
        let mut i: usize = 0;
        while i < supports.len()
            invariant
                i <= supports.len(),
                supports@ == ecdsa_pool.validated.dealing_support@,
                forall|k: int|
                    0 <= k < i ==> !support_matches(
                        #[trigger] supports@[k].1,
                        *transcript_id,
                        *dealer_id,
                        *node_id,
                    ),
            decreases supports.len() - i,
        {
            let support = &supports[i].1;
            if support.content.dealer_id == *dealer_id && support.content.transcript_id
                == *transcript_id && support.signature.signer == *node_id {
                return true;
            }
            i += 1;
        }
        false
    }

    /// Creates this replica's dealing for the transcript and proposes to add
    /// it. Whatever the capability answers, the changes are those that
    /// `created_dealing_changes` gives for the answer.
    pub fn crypto_create_dealing(
        &self,
        block_reader: &EcdsaBlockReader,
        transcript_params: &IDkgTranscriptParams,
    ) -> (changes: EcdsaChangeSet)
        ensures
            exists|outcome: Result<Seq<u8>, CryptoError>|
                self.crypto.may_create_dealing(*transcript_params, outcome) && change_set_view(
                    changes@,
                ) == as_changes(
                    #[trigger] created_dealing_verdict(
                        self.node_id,
                        block_reader.height,
                        transcript_params.transcript_id,
                        outcome,
                    ),
                ),
    {
        let outcome = self.crypto.create_dealing(transcript_params);
        let ghost answer = created_view(outcome);
        let changes = created_dealing_changes(
            self.node_id,
            block_reader.height(),
            transcript_params.transcript_id,
            outcome,
        );
        proof {
            assert(change_set_view(changes@) == as_changes(
                created_dealing_verdict(
                    self.node_id,
                    block_reader.height,
                    transcript_params.transcript_id,
                    answer,
                ),
            ));
        }
        changes
    }

    /// Verifies a dealing received for a transcript that is being built.
    /// Whatever the capability answers, the changes are those that
    /// `verified_dealing_changes` gives for the answer.
    pub fn crypto_verify_dealing(
        &self,
        id: &EcdsaMessageId,
        transcript_params: &IDkgTranscriptParams,
        dealing: &EcdsaDealing,
    ) -> (changes: EcdsaChangeSet)
        ensures
            exists|outcome: Result<(), CryptoError>|
                self.crypto.may_verify_dealing_public(
                    *transcript_params,
                    dealing.dealing@,
                    outcome,
                ) && change_set_view(changes@) == as_changes(
                    #[trigger] verified_dealing_verdict(*id, outcome),
                ),
    {
        let outcome = self.crypto.verify_dealing_public(transcript_params, &dealing.dealing);
        let changes = verified_dealing_changes(*id, outcome);
        proof {
            assert(change_set_view(changes@) == as_changes(verified_dealing_verdict(*id, outcome)));
        }
        changes
    }

    /// Issues a support for a dealing of which this replica is a receiver: the
    /// dealing is verified privately and, if it passes, signed. Whatever the
    /// capability answers, the changes are those that
    /// `failed_private_verification_changes` and `signed_support_changes` give
    /// for the answers.
    pub fn crypto_create_dealing_support(
        &self,
        id: &EcdsaMessageId,
        transcript_params: &IDkgTranscriptParams,
        dealing: &EcdsaDealing,
    ) -> (changes: EcdsaChangeSet)
        ensures
            exists|verified: Result<(), CryptoError>, signed: Result<Seq<u8>, CryptoError>|
                self.crypto.may_verify_dealing_private(
                    *transcript_params,
                    dealing.dealing@,
                    verified,
                ) && (verified.is_ok() ==> self.crypto.may_sign(
                    dealing@,
                    self.node_id,
                    transcript_params.registry_version,
                    signed,
                )) && change_set_view(changes@) == as_changes(
                    #[trigger] created_support_verdict(
                        self.node_id,
                        *id,
                        dealing@,
                        verified,
                        signed,
                    ),
                ),
    {
        let verified = self.crypto.verify_dealing_private(transcript_params, &dealing.dealing);
        match verified {
            Err(error) => {
                let changes = failed_private_verification_changes(*id, error);
                proof {
                    assert(change_set_view(changes@) == as_changes(
                        created_support_verdict(
                            self.node_id,
                            *id,
                            dealing@,
                            verified,
                            Err(error),
                        ),
                    ));
                }
                changes
            },
            Ok(_) => {
                let signed = self.crypto.sign(
                    dealing,
                    self.node_id,
                    transcript_params.registry_version,
                );
                let ghost answer = signed_view(signed);
                let changes = signed_support_changes(self.node_id, dealing, signed);
                proof {
                    assert(change_set_view(changes@) == as_changes(
                        created_support_verdict(self.node_id, *id, dealing@, verified, answer),
                    ));
                }
                changes
            },
        }
    }

    /// Verifies the signature share of a support. Whatever the capability
    /// answers, the changes are those that `verified_support_changes` gives
    /// for the answer.
    pub fn crypto_verify_dealing_support(
        &self,
        id: &EcdsaMessageId,
        transcript_params: &IDkgTranscriptParams,
        support: &EcdsaDealingSupport,
    ) -> (changes: EcdsaChangeSet)
        ensures
            exists|outcome: Result<(), CryptoError>|
                self.crypto.may_verify(support@, transcript_params.registry_version, outcome)
                    && change_set_view(changes@) == as_changes(
                    #[trigger] verified_support_verdict(*id, outcome),
                ),
    {
        let outcome = self.crypto.verify(support, transcript_params.registry_version);
        let changes = verified_support_changes(*id, outcome);
        proof {
            assert(change_set_view(changes@) == as_changes(verified_support_verdict(*id, outcome)));
        }
        changes
    }
}

impl<C: ConsensusCrypto> EcdsaPreSignerImpl<C> {
    /// Decides on the unvalidated dealing at place `i`, given the keys that
    /// occur more than once in the batch.
    fn validate_dealing(
        &self,
        ecdsa_pool: &EcdsaPool,
        block_reader: &EcdsaBlockReader,
        duplicate_keys: &Vec<DealingKey>,
        i: usize,
    ) -> (changes: EcdsaChangeSet)
        requires
            i < ecdsa_pool.unvalidated.dealings@.len(),
            forall|key: DealingKey|
                duplicate_keys@.contains(key) <==> occurs_twice(
                    dealing_keys(ecdsa_pool.unvalidated.dealings@),
                    key,
                ),
        ensures
            exists|outcome: Result<(), CryptoError>|
                dealing_answer(&self.crypto, ecdsa_pool, block_reader, i as int, outcome)
                    && change_set_view(changes@) == as_changes(
                    #[trigger] dealing_verdict(ecdsa_pool, block_reader, i as int, outcome),
                ),
    {
        let entry = &ecdsa_pool.unvalidated().dealings[i];
        let id = entry.0;
        let dealing = &entry.1;
        let key = DealingKey { transcript_id: dealing.transcript_id, dealer_id: dealing.dealer_id };
        let ghost untried: Result<(), CryptoError> = Ok(());
        proof {
            let keys = dealing_keys(ecdsa_pool.unvalidated.dealings@);
            assert(keys[i as int] == key);
            lemma_duplicate_in_batch(keys, i as int);
        }
        if contains_key(duplicate_keys, &key) {
            let changes = invalid_change(id, InvalidReason::DuplicateDealingInBatch);
            proof {
                assert(dealing_answer(&self.crypto, ecdsa_pool, block_reader, i as int, untried));
                assert(change_set_view(changes@) == as_changes(
                    dealing_verdict(ecdsa_pool, block_reader, i as int, untried),
                ));
            }
            return changes;
        }
        match Action::action(block_reader, dealing.requested_height, &dealing.transcript_id) {
            Action::Process(transcript_params) => {
                if transcript_params.dealers.position(dealing.dealer_id).is_none() {
                    let changes = invalid_change(id, InvalidReason::UnexpectedDealer);
                    proof {
                        assert(dealing_answer(
                            &self.crypto,
                            ecdsa_pool,
                            block_reader,
                            i as int,
                            untried,
                        ));
                        assert(change_set_view(changes@) == as_changes(
                            dealing_verdict(ecdsa_pool, block_reader, i as int, untried),
                        ));
                    }
                    changes
                } else if self.has_dealer_issued_dealing(
                    ecdsa_pool,
                    &dealing.transcript_id,
                    &dealing.dealer_id,
                ) {
                    let changes = invalid_change(id, InvalidReason::DuplicateDealing);
                    proof {
                        assert(dealing_answer(
                            &self.crypto,
                            ecdsa_pool,
                            block_reader,
                            i as int,
                            untried,
                        ));
                        assert(change_set_view(changes@) == as_changes(
                            dealing_verdict(ecdsa_pool, block_reader, i as int, untried),
                        ));
                    }
                    changes
                } else {
                    let changes = self.crypto_verify_dealing(&id, transcript_params, dealing);
                    proof {
                        let outcome = choose|outcome: Result<(), CryptoError>|
                            self.crypto.may_verify_dealing_public(
                                *transcript_params,
                                dealing.dealing@,
                                outcome,
                            ) && change_set_view(changes@) == as_changes(
                                #[trigger] verified_dealing_verdict(id, outcome),
                            );
                        assert(dealing_answer(
                            &self.crypto,
                            ecdsa_pool,
                            block_reader,
                            i as int,
                            outcome,
                        ));
                        assert(change_set_view(changes@) == as_changes(
                            dealing_verdict(ecdsa_pool, block_reader, i as int, outcome),
                        ));
                    }
                    changes
                }
            },
            Action::Drop => {
                let changes = one_change(EcdsaChangeAction::RemoveUnvalidated(id));
                proof {
                    assert(dealing_answer(
                        &self.crypto,
                        ecdsa_pool,
                        block_reader,
                        i as int,
                        untried,
                    ));
                    assert(change_set_view(changes@) == as_changes(
                        dealing_verdict(ecdsa_pool, block_reader, i as int, untried),
                    ));
                }
                changes
            },
            Action::Defer => {
                let changes = no_change();
                proof {
                    assert(dealing_answer(
                        &self.crypto,
                        ecdsa_pool,
                        block_reader,
                        i as int,
                        untried,
                    ));
                    assert(change_set_view(changes@) == as_changes(
                        dealing_verdict(ecdsa_pool, block_reader, i as int, untried),
                    ));
                }
                changes
            },
        }
    }

    /// Processes the dealings received from peer dealers. A first pass finds
    /// the keys that occur more than once in the unvalidated batch; a second
    /// pass decides on each dealing in turn. The changes are the verdicts on
    /// the dealings, in their order, for the answers that the capability gave.
    pub fn validate_dealings(
        &self,
        ecdsa_pool: &EcdsaPool,
        block_reader: &EcdsaBlockReader,
    ) -> (ret: EcdsaChangeSet)
        ensures
            may_validate_dealings(&self.crypto, ecdsa_pool, block_reader, change_set_view(ret@)),
    {
        let entries = &ecdsa_pool.unvalidated().dealings;
        let mut keys: Vec<DealingKey> = Vec::new();
        let mut i: usize = 0;
        while i < entries.len()
            invariant
                i <= entries.len(),
                entries@ == ecdsa_pool.unvalidated.dealings@,
                keys@ =~= dealing_keys(entries@).take(i as int),
            decreases entries.len() - i,
        {
            let dealing = &entries[i].1;
            keys.push(
                DealingKey { transcript_id: dealing.transcript_id, dealer_id: dealing.dealer_id },
            );
            i += 1;
        }
        proof {
            assert(keys@ =~= dealing_keys(entries@));
        }
        let duplicates = duplicate_keys(&keys);

        let mut ret: EcdsaChangeSet = Vec::new();
        let ghost mut outcomes: Seq<Result<(), CryptoError>> = Seq::empty();
        let ghost mut verdicts: Seq<Option<EcdsaChangeActionView>> = Seq::empty();
        proof {
            assert(change_set_view(ret@) =~= emitted(verdicts));
        }
        let mut i: usize = 0;
        while i < entries.len()
            invariant
                i <= entries.len(),
                entries@ == ecdsa_pool.unvalidated.dealings@,
                forall|key: DealingKey|
                    duplicates@.contains(key) <==> occurs_twice(dealing_keys(entries@), key),
                outcomes.len() == i,
                verdicts.len() == i,
                forall|k: int|
                    0 <= k < i ==> dealing_answer(
                        &self.crypto,
                        ecdsa_pool,
                        block_reader,
                        k,
                        #[trigger] outcomes[k],
                    ),
                forall|k: int|
                    0 <= k < i ==> verdicts[k] == dealing_verdict(
                        ecdsa_pool,
                        block_reader,
                        k,
                        outcomes[k],
                    ),
                change_set_view(ret@) == emitted(verdicts),
            decreases entries.len() - i,
        {
            let mut changes = self.validate_dealing(ecdsa_pool, block_reader, &duplicates, i);
            proof {
                let outcome = choose|outcome: Result<(), CryptoError>|
                    dealing_answer(&self.crypto, ecdsa_pool, block_reader, i as int, outcome)
                        && change_set_view(changes@) == as_changes(
                        #[trigger] dealing_verdict(ecdsa_pool, block_reader, i as int, outcome),
                    );
                let verdict = dealing_verdict(ecdsa_pool, block_reader, i as int, outcome);
                lemma_emitted_push(verdicts, verdict);
                lemma_change_set_view_add(ret@, changes@);
                outcomes = outcomes.push(outcome);
                verdicts = verdicts.push(verdict);
            }
            ret.append(&mut changes);
            i += 1;
        }
        proof {
            assert(verdicts =~= dealing_verdicts(ecdsa_pool, block_reader, outcomes));
        }
        ret
    }
}

impl<C: ConsensusCrypto> EcdsaPreSignerImpl<C> {
    /// Decides on the unvalidated support at place `i`, given the keys that
    /// occur more than once in the batch.
    fn validate_support(
        &self,
        ecdsa_pool: &EcdsaPool,
        block_reader: &EcdsaBlockReader,
        valid_dealings: &Vec<DealingKey>,
        duplicate_supports: &Vec<SupportKey>,
        i: usize,
    ) -> (changes: EcdsaChangeSet)
        requires
            i < ecdsa_pool.unvalidated.dealing_support@.len(),
            valid_dealings@ == dealing_keys(ecdsa_pool.validated.dealings@),
            forall|key: SupportKey|
                duplicate_supports@.contains(key) <==> occurs_twice(
                    support_keys(ecdsa_pool.unvalidated.dealing_support@),
                    key,
                ),
        ensures
            exists|outcome: Result<(), CryptoError>|
                support_answer(&self.crypto, ecdsa_pool, block_reader, i as int, outcome)
                    && change_set_view(changes@) == as_changes(
                    #[trigger] support_verdict(ecdsa_pool, block_reader, i as int, outcome),
                ),
    {
        let entry = &ecdsa_pool.unvalidated().dealing_support[i];
        let id = entry.0;
        let support = &entry.1;
        let dealing = &support.content;
        let dealing_key = DealingKey {
            transcript_id: dealing.transcript_id,
            dealer_id: dealing.dealer_id,
        };
        let support_key = SupportKey {
            transcript_id: dealing.transcript_id,
            dealer_id: dealing.dealer_id,
            signer: support.signature.signer,
        };
        let ghost untried: Result<(), CryptoError> = Ok(());
        proof {
            let keys = support_keys(ecdsa_pool.unvalidated.dealing_support@);
            assert(keys[i as int] == support_key);
            lemma_duplicate_in_batch(keys, i as int);
            lemma_valid_dealings(ecdsa_pool, dealing_key);
        }
        if contains_key(duplicate_supports, &support_key) {
            let changes = invalid_change(id, InvalidReason::DuplicateSupportInBatch);
            proof {
                assert(support_answer(&self.crypto, ecdsa_pool, block_reader, i as int, untried));
                assert(change_set_view(changes@) == as_changes(
                    support_verdict(ecdsa_pool, block_reader, i as int, untried),
                ));
            }
            return changes;
        }
        match Action::action(block_reader, dealing.requested_height, &dealing.transcript_id) {
            Action::Process(transcript_params) => {
                if transcript_params.receivers.position(support.signature.signer).is_none() {
                    let changes = invalid_change(id, InvalidReason::UnexpectedSupport);
                    proof {
                        assert(support_answer(
                            &self.crypto,
                            ecdsa_pool,
                            block_reader,
                            i as int,
                            untried,
                        ));
                        assert(change_set_view(changes@) == as_changes(
                            support_verdict(ecdsa_pool, block_reader, i as int, untried),
                        ));
                    }
                    changes
                } else if !contains_key(valid_dealings, &dealing_key) {
                    let changes = no_change();
                    proof {
                        assert(support_answer(
                            &self.crypto,
                            ecdsa_pool,
                            block_reader,
                            i as int,
                            untried,
                        ));
                        assert(change_set_view(changes@) == as_changes(
                            support_verdict(ecdsa_pool, block_reader, i as int, untried),
                        ));
                    }
                    changes
                } else if self.has_node_issued_dealing_support(
                    ecdsa_pool,
                    &dealing.transcript_id,
                    &dealing.dealer_id,
                    &support.signature.signer,
                ) {
                    let changes = invalid_change(id, InvalidReason::DuplicateSupport);
                    proof {
                        assert(support_answer(
                            &self.crypto,
                            ecdsa_pool,
                            block_reader,
                            i as int,
                            untried,
                        ));
                        assert(change_set_view(changes@) == as_changes(
                            support_verdict(ecdsa_pool, block_reader, i as int, untried),
                        ));
                    }
                    changes
                } else {
                    let changes = self.crypto_verify_dealing_support(
                        &id,
                        transcript_params,
                        support,
                    );
                    proof {
                        let outcome = choose|outcome: Result<(), CryptoError>|
                            self.crypto.may_verify(
                                support@,
                                transcript_params.registry_version,
                                outcome,
                            ) && change_set_view(changes@) == as_changes(
                                #[trigger] verified_support_verdict(id, outcome),
                            );
                        assert(support_answer(
                            &self.crypto,
                            ecdsa_pool,
                            block_reader,
                            i as int,
                            outcome,
                        ));
                        assert(change_set_view(changes@) == as_changes(
                            support_verdict(ecdsa_pool, block_reader, i as int, outcome),
                        ));
                    }
                    changes
                }
            },
            Action::Drop => {
                let changes = one_change(EcdsaChangeAction::RemoveUnvalidated(id));
                proof {
                    assert(support_answer(
                        &self.crypto,
                        ecdsa_pool,
                        block_reader,
                        i as int,
                        untried,
                    ));
                    assert(change_set_view(changes@) == as_changes(
                        support_verdict(ecdsa_pool, block_reader, i as int, untried),
                    ));
                }
                changes
            },
            Action::Defer => {
                let changes = no_change();
                proof {
                    assert(support_answer(
                        &self.crypto,
                        ecdsa_pool,
                        block_reader,
                        i as int,
                        untried,
                    ));
                    assert(change_set_view(changes@) == as_changes(
                        support_verdict(ecdsa_pool, block_reader, i as int, untried),
                    ));
                }
                changes
            },
        }
    }

    /// Processes the received dealing supports. The keys of the validated
    /// dealings are collected, a first pass finds the keys that occur more
    /// than once in the unvalidated batch, and a second pass decides on each
    /// support in turn. The changes are the verdicts on the supports, in their
    /// order, for the answers that the capability gave.
    pub fn validate_dealing_support(
        &self,
        ecdsa_pool: &EcdsaPool,
        block_reader: &EcdsaBlockReader,
    ) -> (ret: EcdsaChangeSet)
        ensures
            may_validate_dealing_support(
                &self.crypto,
                ecdsa_pool,
                block_reader,
                change_set_view(ret@),
            ),
    {
        let dealings = &ecdsa_pool.validated().dealings;
        let mut valid_dealings: Vec<DealingKey> = Vec::new();
        let mut i: usize = 0;
        while i < dealings.len()
            invariant
                i <= dealings.len(),
                dealings@ == ecdsa_pool.validated.dealings@,
                valid_dealings@ =~= dealing_keys(dealings@).take(i as int),
            decreases dealings.len() - i,
        {
            let dealing = &dealings[i].1;
            valid_dealings.push(
                DealingKey { transcript_id: dealing.transcript_id, dealer_id: dealing.dealer_id },
            );
            i += 1;
        }
        proof {
            assert(valid_dealings@ =~= dealing_keys(dealings@));
        }

        let entries = &ecdsa_pool.unvalidated().dealing_support;
        let mut supports: Vec<SupportKey> = Vec::new();
        let mut i: usize = 0;
        while i < entries.len()
            invariant
                i <= entries.len(),
                entries@ == ecdsa_pool.unvalidated.dealing_support@,
                supports@ =~= support_keys(entries@).take(i as int),
            decreases entries.len() - i,
        {
            let support = &entries[i].1;
            supports.push(
                SupportKey {
                    transcript_id: support.content.transcript_id,
                    dealer_id: support.content.dealer_id,
                    signer: support.signature.signer,
                },
            );
            i += 1;
        }
        proof {
            assert(supports@ =~= support_keys(entries@));
        }
        let duplicate_supports = duplicate_keys(&supports);

        let mut ret: EcdsaChangeSet = Vec::new();
        let ghost mut outcomes: Seq<Result<(), CryptoError>> = Seq::empty();
        let ghost mut verdicts: Seq<Option<EcdsaChangeActionView>> = Seq::empty();
        proof {
            assert(change_set_view(ret@) =~= emitted(verdicts));
        }
        let mut i: usize = 0;
        while i < entries.len()
            invariant
                i <= entries.len(),
                entries@ == ecdsa_pool.unvalidated.dealing_support@,
                valid_dealings@ == dealing_keys(ecdsa_pool.validated.dealings@),
                forall|key: SupportKey|
                    duplicate_supports@.contains(key) <==> occurs_twice(support_keys(entries@), key),
                outcomes.len() == i,
                verdicts.len() == i,
                forall|k: int|
                    0 <= k < i ==> support_answer(
                        &self.crypto,
                        ecdsa_pool,
                        block_reader,
                        k,
                        #[trigger] outcomes[k],
                    ),
                forall|k: int|
                    0 <= k < i ==> verdicts[k] == support_verdict(
                        ecdsa_pool,
                        block_reader,
                        k,
                        outcomes[k],
                    ),
                change_set_view(ret@) == emitted(verdicts),
            decreases entries.len() - i,
        {
            let mut changes = self.validate_support(
                ecdsa_pool,
                block_reader,
                &valid_dealings,
                &duplicate_supports,
                i,
            );
            proof {
                let outcome = choose|outcome: Result<(), CryptoError>|
                    support_answer(&self.crypto, ecdsa_pool, block_reader, i as int, outcome)
                        && change_set_view(changes@) == as_changes(
                        #[trigger] support_verdict(ecdsa_pool, block_reader, i as int, outcome),
                    );
                let verdict = support_verdict(ecdsa_pool, block_reader, i as int, outcome);
                lemma_emitted_push(verdicts, verdict);
                lemma_change_set_view_add(ret@, changes@);
                outcomes = outcomes.push(outcome);
                verdicts = verdicts.push(verdict);
            }
            ret.append(&mut changes);
            i += 1;
        }
        proof {
            assert(verdicts =~= support_verdicts(ecdsa_pool, block_reader, outcomes));
        }
        ret
    }

    /// Starts the building of the requested transcripts: for each request of
    /// the block for which this replica is a dealer and has no dealing in the
    /// validated section, it creates one. The changes are the verdicts on the
    /// requests, in their order, for the answers that the capability gave.
    pub fn send_dealings(&self, ecdsa_pool: &EcdsaPool, block_reader: &EcdsaBlockReader) -> (ret:
        EcdsaChangeSet)
        ensures
            may_send_dealings(
                &self.crypto,
                self.node_id,
                ecdsa_pool,
                block_reader,
                change_set_view(ret@),
            ),
    {
        let requests = block_reader.requested_transcripts();
        let mut ret: EcdsaChangeSet = Vec::new();
        let ghost mut outcomes: Seq<Result<Seq<u8>, CryptoError>> = Seq::empty();
        let ghost mut verdicts: Seq<Option<EcdsaChangeActionView>> = Seq::empty();
        proof {
            assert(change_set_view(ret@) =~= emitted(verdicts));
        }
        let mut k: usize = 0;
        while k < requests.len()
            invariant
                k <= requests.len(),
                requests@ == block_reader.requests@,
                outcomes.len() == k,
                verdicts.len() == k,
                forall|j: int|
                    0 <= j < k ==> own_dealing_answer(
                        &self.crypto,
                        self.node_id,
                        ecdsa_pool,
                        block_reader,
                        j,
                        #[trigger] outcomes[j],
                    ),
                forall|j: int|
                    0 <= j < k ==> verdicts[j] == own_dealing_verdict(
                        self.node_id,
                        ecdsa_pool,
                        block_reader,
                        j,
                        outcomes[j],
                    ),
                change_set_view(ret@) == emitted(verdicts),
            decreases requests.len() - k,
        {
            let transcript_params = &requests[k];
            let ghost mut outcome: Result<Seq<u8>, CryptoError> = Ok(Seq::empty());
            if transcript_params.dealers.position(self.node_id).is_some()
                && !self.has_dealer_issued_dealing(
                ecdsa_pool,
                &transcript_params.transcript_id,
                &self.node_id,
            ) {
                let mut changes = self.crypto_create_dealing(block_reader, transcript_params);
                proof {
                    outcome = choose|outcome: Result<Seq<u8>, CryptoError>|
                        self.crypto.may_create_dealing(*transcript_params, outcome)
                            && change_set_view(changes@) == as_changes(
                            #[trigger] created_dealing_verdict(
                                self.node_id,
                                block_reader.height,
                                transcript_params.transcript_id,
                                outcome,
                            ),
                        );
                    lemma_change_set_view_add(ret@, changes@);
                }
                ret.append(&mut changes);
            } else {
                proof {
                    assert(change_set_view(ret@) + as_changes(None) =~= change_set_view(ret@));
                }
            }
            proof {
                let verdict = own_dealing_verdict(
                    self.node_id,
                    ecdsa_pool,
                    block_reader,
                    k as int,
                    outcome,
                );
                lemma_emitted_push(verdicts, verdict);
                outcomes = outcomes.push(outcome);
                verdicts = verdicts.push(verdict);
            }
            k += 1;
        }
        proof {
            assert(verdicts =~= own_dealing_verdicts(
                self.node_id,
                ecdsa_pool,
                block_reader,
                outcomes,
            ));
        }
        ret
    }

    /// Sends out this replica's support for the validated dealings: for each
    /// of them that it has not supported yet, whose transcript the block
    /// requests and of which it is a receiver, it verifies the dealing
    /// privately and signs it. The changes are the verdicts on the validated
    /// dealings, in their order, for the answers that the capability gave.
    pub fn send_dealing_support(
        &self,
        ecdsa_pool: &EcdsaPool,
        block_reader: &EcdsaBlockReader,
    ) -> (ret: EcdsaChangeSet)
        ensures
            may_send_dealing_support(
                &self.crypto,
                self.node_id,
                ecdsa_pool,
                block_reader,
                change_set_view(ret@),
            ),
    {
        let dealings = &ecdsa_pool.validated().dealings;
        let mut ret: EcdsaChangeSet = Vec::new();
        let ghost mut outcomes: Seq<(Result<(), CryptoError>, Result<Seq<u8>, CryptoError>)> =
            Seq::empty();
        let ghost mut verdicts: Seq<Option<EcdsaChangeActionView>> = Seq::empty();
        proof {
            assert(change_set_view(ret@) =~= emitted(verdicts));
        }
        let mut i: usize = 0;
        while i < dealings.len()
            invariant
                i <= dealings.len(),
                dealings@ == ecdsa_pool.validated.dealings@,
                outcomes.len() == i,
                verdicts.len() == i,
                forall|j: int|
                    0 <= j < i ==> own_support_answer(
                        &self.crypto,
                        self.node_id,
                        ecdsa_pool,
                        block_reader,
                        j,
                        #[trigger] outcomes[j],
                    ),
                forall|j: int|
                    0 <= j < i ==> verdicts[j] == own_support_verdict(
                        self.node_id,
                        ecdsa_pool,
                        block_reader,
                        j,
                        outcomes[j],
                    ),
                change_set_view(ret@) == emitted(verdicts),
            decreases dealings.len() - i,
        {
            let id = dealings[i].0;
            let dealing = &dealings[i].1;
            let ghost mut outcome: (Result<(), CryptoError>, Result<Seq<u8>, CryptoError>) = (
                Ok(()),
                Ok(Seq::empty()),
            );
            let mut changes = no_change();
            if !self.has_node_issued_dealing_support(
                ecdsa_pool,
                &dealing.transcript_id,
                &dealing.dealer_id,
                &self.node_id,
            ) {
                match block_reader.find_last_request(dealing.transcript_id) {
                    Some(place) => {
                        let transcript_params = &block_reader.requests[place];
                        if transcript_params.receivers.position(self.node_id).is_some() {
                            changes =
                            self.crypto_create_dealing_support(&id, transcript_params, dealing);
                            proof {
                                outcome = choose|
                                    verified: Result<(), CryptoError>,
                                    signed: Result<Seq<u8>, CryptoError>,
                                |
                                    self.crypto.may_verify_dealing_private(
                                        *transcript_params,
                                        dealing.dealing@,
                                        verified,
                                    ) && (verified.is_ok() ==> self.crypto.may_sign(
                                        dealing@,
                                        self.node_id,
                                        transcript_params.registry_version,
                                        signed,
                                    )) && change_set_view(changes@) == as_changes(
                                        #[trigger] created_support_verdict(
                                            self.node_id,
                                            id,
                                            dealing@,
                                            verified,
                                            signed,
                                        ),
                                    );
                            }
                        }
                    },
                    None => {},
                }
            }
            proof {
                let verdict = own_support_verdict(
                    self.node_id,
                    ecdsa_pool,
                    block_reader,
                    i as int,
                    outcome,
                );
                assert(change_set_view(changes@) == as_changes(verdict));
                assert(own_support_answer(
                    &self.crypto,
                    self.node_id,
                    ecdsa_pool,
                    block_reader,
                    i as int,
                    outcome,
                ));
                lemma_emitted_push(verdicts, verdict);
                lemma_change_set_view_add(ret@, changes@);
                outcomes = outcomes.push(outcome);
                verdicts = verdicts.push(verdict);
            }
            ret.append(&mut changes);
            i += 1;
        }
        proof {
            assert(verdicts =~= own_support_verdicts(
                self.node_id,
                ecdsa_pool,
                block_reader,
                outcomes,
            ));
        }
        ret
    }
}

} // verus!
