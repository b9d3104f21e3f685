use sdupi_core::consensus::resolver::{
    collect_votes, pick_winner, resolve_conflict_fpc, resolve_with_tallies, threshold_reached,
};
use sdupi_core::consensus::{
    AcceptAllProofs, AdvancedConsensusConfig, AdvancedConsensusEngine, AIConsensusPredictor,
    CoinFlipVoting, Conflict, ConflictType, ConsensusAlgorithm, ConsensusEngine, ConsensusPhase,
    PrivacyProofVerifier, RefuseAllProofs, ValidationStatus, ValidationWorker, ValidatorRegistry, VotingStrategy,
};
use sdupi_core::consensus::round::check_transaction;
use sdupi_core::crypto::KeyPair;
use sdupi_core::dag::{AdvancedDAGConfig, AdvancedDAGLedger, TransactionBatch};
use sdupi_core::error::SDUPIError;
use sdupi_core::transaction::{Transaction, TransactionStatus};
use sdupi_core::zk_starks::ZKVerifier;
use std::time::Duration;

struct Always(bool);

impl VotingStrategy for Always {
    fn vote(&mut self, _candidate: u128) -> bool {
        self.0
    }
}

struct OnlyFor(u128);

impl VotingStrategy for OnlyFor {
    fn vote(&mut self, candidate: u128) -> bool {
        candidate == self.0
    }
}

fn pair(seed: u8) -> KeyPair {
    KeyPair::from_secret_key_bytes(&[seed; 32]).unwrap()
}

fn plain(id: u128, fee: u64, parent: Option<u128>) -> Transaction {
    Transaction::with_identity(
        id,
        1_000,
        pair(1).public_key(),
        pair(2).public_key(),
        1000,
        fee,
        parent,
        None,
    )
}

fn signed(id: u128, fee: u64, parent: Option<u128>) -> Transaction {
    let mut t = plain(id, fee, parent);
    let signature = pair(1).sign_transaction(&t.hash());
    t.set_signature(signature);
    t.set_zk_proof(vec![1, 2, 3]);
    t
}

fn engine() -> ConsensusEngine {
    ConsensusEngine::new(
        AdvancedDAGLedger::new(AdvancedDAGConfig::default()),
        AdvancedConsensusConfig::default(),
    )
}

#[test]
fn test_consensus_config_defaults() {
    let config = AdvancedConsensusConfig::default();

    assert_eq!(config.algorithm, ConsensusAlgorithm::Hybrid);
    assert_eq!(Duration::from_millis(config.round_duration), Duration::from_millis(5));
    assert_eq!(config.batch_size, 10_000);
    assert_eq!(config.parallel_workers, 32);
}

#[test]
fn test_advanced_consensus_engine_creation() {
    let dag_ledger = AdvancedDAGLedger::new(AdvancedDAGConfig::default());
    let config = AdvancedConsensusConfig::default();
    let engine = AdvancedConsensusEngine::new(dag_ledger, config);

    assert_eq!(engine.validation_workers().len(), 32);
}

#[test]
fn test_advanced_round_start() {
    let dag_ledger = AdvancedDAGLedger::new(AdvancedDAGConfig::default());
    let config = AdvancedConsensusConfig::default();
    let mut engine = AdvancedConsensusEngine::new(dag_ledger, config);

    assert!(engine.start_advanced_round().is_ok());
}

#[test]
fn registration_checks_the_minimum_stake() {
    let mut registry = ValidatorRegistry::new(1_000);
    let rich = pair(3).public_key();
    let poor = pair(4).public_key();
    assert!(registry.register(rich, 2_000).is_ok());
    match registry.register(poor, 500) {
        Err(SDUPIError::InsufficientStake(text)) => {
            assert_eq!(text, "Stake 500 is below minimum 1000")
        }
        other => panic!("unexpected answer {:?}", other),
    }
    assert_eq!(registry.len(), 1);
    assert!(registry.get(&poor).is_none());
    let entry = registry.get(&rich).unwrap();
    assert_eq!(entry.stake_amount, 2_000);
    assert_eq!(entry.validation_count, 0);
    assert_eq!(entry.last_validation, None);
    assert_eq!(registry.total_stake(), 2_000);

    registry.record_validation(&rich, 77);
    registry.record_validation(&poor, 78);
    let entry = registry.get(&rich).unwrap();
    assert_eq!(entry.validation_count, 1);
    assert_eq!(entry.last_validation, Some(77));
    assert_eq!(registry.len(), 1);

    assert!(registry.register(rich, 1_000).is_ok());
    let entry = registry.get(&rich).unwrap();
    assert_eq!(entry.stake_amount, 1_000);
    assert_eq!(entry.validation_count, 0);
    assert_eq!(registry.len(), 1);
}

#[test]
fn engine_registers_validators_against_its_minimum() {
    let mut engine = engine();
    assert!(engine.register_validator(pair(3).public_key(), 2_000).is_ok());
    assert!(matches!(
        engine.register_validator(pair(4).public_key(), 500),
        Err(SDUPIError::InsufficientStake(_))
    ));
    let stats = engine.get_statistics().unwrap();
    assert_eq!(stats.total_validators, 1);
    assert_eq!(stats.total_stake, 2_000);
    assert_eq!(stats.current_round, None);
    assert_eq!(stats.total_rounds, 0);
}

#[test]
fn rounds_do_not_overlap_and_count_up_by_one() {
    let mut engine = engine();
    assert!(engine.start_round_at(100).is_ok());
    let round = engine.current_round().as_ref().unwrap();
    assert_eq!(round.round_number, 1);
    assert_eq!(round.start_time, 100);
    assert_eq!(round.end_time, 105);
    assert_eq!(round.phase, ConsensusPhase::PrePrepare);
    match engine.start_round_at(104) {
        Err(SDUPIError::Consensus(text)) => assert_eq!(text, "Consensus round already active"),
        other => panic!("unexpected answer {:?}", other),
    }
    assert_eq!(engine.get_statistics().unwrap().total_rounds, 1);
    assert!(engine.start_round_at(105).is_ok());
    let stats = engine.get_statistics().unwrap();
    assert_eq!(stats.total_rounds, 2);
    assert_eq!(stats.current_round, Some(2));
}

#[test]
fn validation_needs_an_open_round_inside_its_window() {
    let mut engine = engine();
    assert!(matches!(engine.submit_transaction(signed(1, 10, None), 50), Ok(None)));
    match engine.validate_transactions_at(&AcceptAllProofs, 60) {
        Err(SDUPIError::Consensus(text)) => assert_eq!(text, "No active consensus round"),
        other => panic!("unexpected answer {:?}", other),
    }
    assert!(engine.start_round_at(100).is_ok());
    let before = (
        engine.ledger().get_statistics().unwrap(),
        engine.ledger().get_tips(),
        engine.ledger().pending_transactions(),
        engine.get_statistics().unwrap(),
        engine.current_round().as_ref().unwrap().validated_transactions.clone(),
    );
    match engine.validate_transactions_at(&AcceptAllProofs, 105) {
        Err(SDUPIError::Consensus(text)) => assert_eq!(text, "Consensus round has ended"),
        other => panic!("unexpected answer {:?}", other),
    }
    let after = (
        engine.ledger().get_statistics().unwrap(),
        engine.ledger().get_tips(),
        engine.ledger().pending_transactions(),
        engine.get_statistics().unwrap(),
        engine.current_round().as_ref().unwrap().validated_transactions.clone(),
    );
    assert_eq!(before, after);
    assert_eq!(engine.ledger().status_of(1), Some(TransactionStatus::Pending));
    assert_eq!(engine.validate_transactions_at(&AcceptAllProofs, 104).unwrap(), 1);
    assert_eq!(engine.ledger().status_of(1), Some(TransactionStatus::Validated));
}

#[test]
fn only_signed_and_proved_tips_are_validated() {
    let mut engine = engine();
    let sender = pair(1).public_key();
    assert!(engine.register_validator(sender, 5_000).is_ok());
    assert!(matches!(engine.submit_transaction(signed(1, 10, None), 50), Ok(None)));
    assert!(matches!(engine.submit_transaction(plain(2, 20, None), 50), Ok(None)));
    let mut forged = signed(3, 30, None);
    forged.fee = 31;
    assert!(matches!(engine.submit_transaction(forged, 50), Ok(None)));
    assert!(engine.start_round_at(100).is_ok());
    assert_eq!(engine.validate_transactions_at(&RefuseAllProofs, 101).unwrap(), 0);
    assert_eq!(engine.validate_transactions_at(&AcceptAllProofs, 101).unwrap(), 1);
    assert_eq!(engine.ledger().status_of(1), Some(TransactionStatus::Validated));
    assert_eq!(engine.ledger().status_of(2), Some(TransactionStatus::Pending));
    assert_eq!(engine.ledger().status_of(3), Some(TransactionStatus::Pending));
    let round = engine.current_round().as_ref().unwrap();
    assert_eq!(round.validated_transactions, vec![1]);
    let entry = engine.validators().get(&sender).unwrap();
    assert_eq!(entry.validation_count, 1);
    assert_eq!(entry.last_validation, Some(101));
    assert_eq!(engine.validate_transactions_at(&AcceptAllProofs, 102).unwrap(), 0);
}

#[test]
fn conflicts_are_attached_and_carried_to_the_next_round() {
    let mut engine = engine();
    let first = engine.submit_transaction(plain(9, 10, Some(5)), 40).unwrap().unwrap();
    assert_eq!(first.conflict_type, ConflictType::InvalidParent);
    assert_eq!(engine.backlog().len(), 1);
    assert!(engine.start_round_at(100).is_ok());
    assert_eq!(engine.backlog().len(), 0);
    assert_eq!(engine.current_round().as_ref().unwrap().conflicts.len(), 1);
    let second = engine.submit_transaction(plain(8, 10, Some(6)), 101).unwrap().unwrap();
    assert_eq!(second.transaction_ids, vec![8]);
    assert_eq!(engine.current_round().as_ref().unwrap().conflicts.len(), 2);
    // No candidate is stored, so no vote can settle these conflicts.
    assert_eq!(engine.resolve_conflicts_fpc(&mut Always(true), 102).unwrap(), 0);
    assert!(engine.start_round_at(200).is_ok());
    let round = engine.current_round().as_ref().unwrap();
    assert_eq!(round.round_number, 2);
    assert_eq!(round.conflicts.len(), 2);
    assert_eq!(round.conflicts[0].transaction_ids, vec![9]);
    assert_eq!(round.conflicts[1].transaction_ids, vec![8]);
}

#[test]
fn resolution_confirms_the_winner_and_rejects_the_other() {
    let mut ledger = AdvancedDAGLedger::new(AdvancedDAGConfig::default());
    assert!(matches!(ledger.add_transaction_advanced(plain(1, 10, None), 50), Ok(None)));
    assert!(matches!(ledger.add_transaction_advanced(plain(2, 10, None), 50), Ok(None)));
    let mut conflict = Conflict {
        transaction_ids: vec![1, 2],
        conflict_type: ConflictType::DoubleSpend,
        detected_at: 60,
        resolved: false,
    };
    // No winner: the conflict stays open and nothing changes.
    assert_eq!(
        resolve_with_tallies(&mut ledger, &mut conflict, &vec![6, 6], 10, 67, 70).unwrap(),
        false
    );
    assert!(!conflict.resolved);
    assert_eq!(ledger.status_of(1), Some(TransactionStatus::Pending));
    // The second candidate wins.
    assert_eq!(
        resolve_with_tallies(&mut ledger, &mut conflict, &vec![6, 7], 10, 67, 70).unwrap(),
        true
    );
    assert!(conflict.resolved);
    assert_eq!(ledger.status_of(1), Some(TransactionStatus::Rejected));
    assert_eq!(ledger.status_of(2), Some(TransactionStatus::Confirmed));
    assert!(ledger.pending_transactions().is_empty());
    match resolve_with_tallies(&mut ledger, &mut conflict, &vec![10, 0], 10, 67, 80) {
        Err(e) => assert_eq!(
            e.message(),
            "Conflict resolution failed: Conflict is already resolved"
        ),
        other => panic!("unexpected answer {:?}", other),
    }
    assert_eq!(ledger.status_of(2), Some(TransactionStatus::Confirmed));
}

#[test]
fn first_candidate_over_the_threshold_wins() {
    assert!(threshold_reached(67, 100, 67));
    assert!(!threshold_reached(66, 100, 67));
    assert!(!threshold_reached(0, 0, 0));
    assert_eq!(pick_winner(&vec![5, 7, 9], 10, 67), Some(1));
    assert_eq!(pick_winner(&vec![5, 6], 10, 67), None);
    assert_eq!(pick_winner(&vec![], 10, 67), None);
    assert_eq!(collect_votes(&mut OnlyFor(2), &vec![1, 2, 3], 4), vec![0, 4, 0]);
    let coins = collect_votes(&mut CoinFlipVoting::new(), &vec![1, 2], 50);
    assert_eq!(coins.len(), 2);
    assert!(coins.iter().all(|&votes| votes <= 50));
}

#[test]
fn a_vote_cannot_settle_what_the_graph_forbids() {
    let mut ledger = AdvancedDAGLedger::new(AdvancedDAGConfig::default());
    assert!(matches!(ledger.add_transaction_advanced(plain(1, 10, None), 50), Ok(None)));
    assert!(matches!(ledger.add_transaction_advanced(plain(2, 10, None), 50), Ok(None)));
    assert!(ledger.confirm_transaction(2, 55).is_ok());
    let mut conflict = Conflict {
        transaction_ids: vec![1, 2],
        conflict_type: ConflictType::DoubleSpend,
        detected_at: 60,
        resolved: false,
    };
    // The first would win, but the second is confirmed and cannot be rejected.
    assert_eq!(
        resolve_conflict_fpc(&mut ledger, &mut conflict, &mut OnlyFor(1), 10, 67, 70).unwrap(),
        false
    );
    assert_eq!(ledger.status_of(1), Some(TransactionStatus::Pending));
    assert_eq!(ledger.status_of(2), Some(TransactionStatus::Confirmed));
    // The second wins: it stays confirmed and the first is rejected.
    assert_eq!(
        resolve_conflict_fpc(&mut ledger, &mut conflict, &mut OnlyFor(2), 10, 67, 70).unwrap(),
        true
    );
    assert_eq!(ledger.status_of(1), Some(TransactionStatus::Rejected));
    assert_eq!(ledger.status_of(2), Some(TransactionStatus::Confirmed));
}

#[test]
fn workers_validate_batches_and_grade_them() {
    let worker = ValidationWorker { worker_id: 3 };
    let all_good = TransactionBatch::with_id(1, vec![signed(1, 10, None), signed(2, 30, None)], 5);
    assert_eq!(all_good.size, 2);
    assert_eq!(all_good.priority_score, 20);
    let result = worker.validate_batch(&all_good, &AcceptAllProofs);
    assert_eq!(result.batch_id, 1);
    assert_eq!(result.worker_id, 3);
    assert_eq!(result.status, ValidationStatus::Success);
    assert_eq!(result.validated_transactions, vec![1, 2]);

    let mixed = TransactionBatch::with_id(2, vec![plain(1, 10, None), signed(2, 30, None)], 5);
    let (validated, status) = worker.check_batch(&mixed, &AcceptAllProofs);
    assert_eq!(validated, vec![2]);
    assert_eq!(status, ValidationStatus::Partial);

    let (validated, status) = worker.check_batch(&mixed, &RefuseAllProofs);
    assert!(validated.is_empty());
    assert_eq!(status, ValidationStatus::Failed);

    let empty = TransactionBatch::with_id(3, vec![], 5);
    assert_eq!(empty.priority_score, 0);
    assert_eq!(worker.check_batch(&empty, &RefuseAllProofs).1, ValidationStatus::Success);
}

#[test]
fn a_round_runs_through_its_four_phases() {
    let mut config = AdvancedConsensusConfig::default();
    config.batch_size = 2;
    config.parallel_workers = 2;
    config.round_duration = 50;
    let mut engine =
        ConsensusEngine::new(AdvancedDAGLedger::new(AdvancedDAGConfig::default()), config);
    for (id, fee) in [(1u128, 10u64), (2, 40), (3, 30)] {
        assert!(matches!(engine.submit_transaction(signed(id, fee, None), 10), Ok(None)));
    }
    assert!(matches!(engine.submit_transaction(plain(4, 20, None), 10), Ok(None)));
    assert!(engine.start_round_at(100).is_ok());
    // Phases run in order only.
    assert!(matches!(engine.prepare_phase(101), Err(SDUPIError::Consensus(_))));
    assert!(engine.pre_prepare_phase(101).is_ok());
    let batches = engine.transaction_batches();
    assert_eq!(batches.len(), 2);
    assert_eq!(batches[0].transactions.iter().map(|t| t.id).collect::<Vec<_>>(), vec![2, 3]);
    assert_eq!(batches[0].priority_score, 35);
    assert_eq!(batches[1].transactions.iter().map(|t| t.id).collect::<Vec<_>>(), vec![4, 1]);
    assert_eq!(batches[1].priority_score, 15);
    let plan = engine.prepare_phase(102).unwrap();
    assert_eq!(plan, vec![0, 1]);
    let results = engine.run_workers(&plan, &AcceptAllProofs);
    assert_eq!(results[0].status, ValidationStatus::Success);
    assert_eq!(results[1].status, ValidationStatus::Partial);
    assert_eq!(results[1].validated_transactions, vec![1]);
    assert_eq!(engine.commit_phase(&results, 103).unwrap(), 3);
    assert_eq!(engine.ledger().status_of(2), Some(TransactionStatus::Validated));
    assert_eq!(engine.ledger().status_of(4), Some(TransactionStatus::Pending));
    let record = engine.finalize_phase(&mut Always(false), 120).unwrap();
    assert_eq!(record.round_number, 1);
    assert_eq!(record.validated_transactions, vec![2, 3, 1]);
    assert_eq!(record.processed_batches.len(), 2);
    assert_eq!(record.metrics.transactions_processed, 3);
    assert_eq!(record.metrics.processing_time, 20);
    assert_eq!(record.metrics.tps_achieved, 150);
    assert_eq!(record.metrics.conflicts_resolved, 0);
    assert!(engine.current_round().is_none());
    for id in [1u128, 2, 3] {
        assert_eq!(engine.ledger().status_of(id), Some(TransactionStatus::Confirmed));
    }
    assert_eq!(engine.ledger().status_of(4), Some(TransactionStatus::Pending));
    assert_eq!(engine.ledger().pending_transactions(), vec![4]);
    let metrics = engine.get_performance_metrics().unwrap();
    assert_eq!(metrics.total_tps, 150);
    assert_eq!(metrics.peak_tps, 150);
    assert_eq!(metrics.round_completion_time, 20);
    // The next round can start at once.
    assert!(engine.start_round_at(121).is_ok());
}

#[test]
fn the_engine_with_workers_runs_a_whole_round() {
    let mut config = AdvancedConsensusConfig::default();
    config.round_duration = 1_000;
    let mut engine =
        AdvancedConsensusEngine::new(AdvancedDAGLedger::new(AdvancedDAGConfig::default()), config);
    assert!(matches!(engine.submit_transaction(signed(1, 10, None), 10), Ok(None)));
    assert!(matches!(engine.submit_transaction(signed(2, 10, Some(1)), 10), Ok(None)));
    assert!(matches!(
        engine.execute_advanced_consensus_at(&AcceptAllProofs, &mut CoinFlipVoting::new(), 20),
        Err(SDUPIError::Consensus(_))
    ));
    assert!(engine.start_advanced_round_at(100).is_ok());
    let outcome = engine
        .execute_advanced_consensus_at(&AcceptAllProofs, &mut CoinFlipVoting::new(), 600)
        .unwrap();
    assert!(outcome.success);
    assert_eq!(outcome.round_number, 1);
    assert_eq!(outcome.transactions_processed, 2);
    assert_eq!(outcome.execution_time, 500);
    assert_eq!(outcome.tps_achieved, 4);
    assert_eq!(engine.engine().ledger().status_of(1), Some(TransactionStatus::Confirmed));
    assert_eq!(engine.engine().ledger().status_of(2), Some(TransactionStatus::Confirmed));
    assert!(engine.engine().ledger().get_tips().is_empty());
    let records = engine.take_finished_rounds();
    assert_eq!(records.len(), 1);
    assert_eq!(records[0].phase, ConsensusPhase::Finalize);
    assert!(engine.take_finished_rounds().is_empty());
    assert_eq!(engine.get_performance_metrics().unwrap().peak_tps, 4);
}

#[test]
fn the_predictor_chooses_by_accuracy() {
    let mut predictor = AIConsensusPredictor::new();
    assert_eq!(predictor.accuracy, 850);
    assert_eq!(predictor.predict_optimal_consensus(), ConsensusAlgorithm::BFT);
    predictor.accuracy = 901;
    assert_eq!(predictor.predict_optimal_consensus(), ConsensusAlgorithm::HotStuff);
    predictor.accuracy = 800;
    assert_eq!(predictor.predict_optimal_consensus(), ConsensusAlgorithm::Hybrid);
}

#[test]
fn phases_run_one_by_one_in_their_order() {
    let mut config = AdvancedConsensusConfig::default();
    config.round_duration = 100;
    config.algorithm = ConsensusAlgorithm::AIConsensus;
    let mut engine =
        AdvancedConsensusEngine::new(AdvancedDAGLedger::new(AdvancedDAGConfig::default()), config);
    assert_eq!(engine.algorithm(), ConsensusAlgorithm::BFT);
    assert!(matches!(engine.submit_transaction(signed(1, 10, None), 10), Ok(None)));
    assert!(engine.register_validator(pair(1).public_key(), 1_000).is_ok());
    assert!(matches!(
        engine.execute_phase(ConsensusPhase::PrePrepare, &AcceptAllProofs, &mut Always(true), 20),
        Err(SDUPIError::Consensus(_))
    ));
    assert!(engine.start_advanced_round_at(100).is_ok());
    assert!(matches!(
        engine.execute_phase(ConsensusPhase::Commit, &AcceptAllProofs, &mut Always(true), 101),
        Err(SDUPIError::Consensus(_))
    ));
    for phase in [ConsensusPhase::PrePrepare, ConsensusPhase::Prepare, ConsensusPhase::Commit] {
        assert_eq!(phase.next().is_some(), true);
        assert!(engine.execute_phase(phase, &AcceptAllProofs, &mut Always(true), 150).is_ok());
    }
    assert_eq!(engine.engine().ledger().status_of(1), Some(TransactionStatus::Validated));
    // Past the window only the last phase still runs.
    assert!(engine
        .execute_phase(ConsensusPhase::Finalize, &AcceptAllProofs, &mut Always(true), 500)
        .is_ok());
    assert_eq!(ConsensusPhase::Finalize.next(), None);
    assert_eq!(engine.engine().ledger().status_of(1), Some(TransactionStatus::Confirmed));
    let records = engine.take_finished_rounds();
    assert_eq!(records.len(), 1);
    assert_eq!(records[0].validated_transactions, vec![1]);
    assert_eq!(records[0].metrics.processing_time, 400);
    let entry = engine.engine().validators().get(&pair(1).public_key()).unwrap();
    assert_eq!(entry.validation_count, 1);
}

#[test]
fn a_phase_past_the_window_is_refused_and_the_queue_waits_for_the_next_round() {
    let mut config = AdvancedConsensusConfig::default();
    config.round_duration = 10;
    let mut engine =
        ConsensusEngine::new(AdvancedDAGLedger::new(AdvancedDAGConfig::default()), config);
    assert!(matches!(engine.submit_transaction(signed(1, 10, None), 10), Ok(None)));
    assert!(engine.start_round_at(100).is_ok());
    match engine.pre_prepare_phase(110) {
        Err(SDUPIError::Consensus(text)) => assert_eq!(text, "Consensus round has ended"),
        other => panic!("unexpected answer {:?}", other),
    }
    assert!(engine.transaction_batches().is_empty());
    assert_eq!(engine.ledger().pending_transactions(), vec![1]);
    assert!(engine.start_round_at(110).is_ok());
    assert!(engine.pre_prepare_phase(111).is_ok());
    assert_eq!(engine.transaction_batches().len(), 1);
    assert_eq!(engine.deal_batches(), vec![0]);
    match engine.commit_phase(&vec![], 112) {
        Err(SDUPIError::Consensus(text)) => {
            assert_eq!(text, "Consensus round is in another phase")
        }
        other => panic!("unexpected answer {:?}", other),
    }
}

#[test]
fn the_engine_detects_what_the_ledger_detects() {
    let mut engine = engine();
    assert!(matches!(engine.submit_transaction(plain(1, 10, None), 10), Ok(None)));
    assert!(engine.detect_conflicts(&plain(2, 10, Some(1)), 20).unwrap().is_none());
    let found = engine.detect_conflicts(&plain(2, 10, Some(3)), 20).unwrap().unwrap();
    assert_eq!(found.conflict_type, ConflictType::InvalidParent);
    assert_eq!(found.detected_at, 20);
    assert_eq!(engine.backlog().len(), 0);
}

#[test]
fn disputed_transactions_wait_for_the_vote() {
    let mut config = AdvancedConsensusConfig::default();
    config.round_duration = 100;
    let mut engine =
        ConsensusEngine::new(AdvancedDAGLedger::new(AdvancedDAGConfig::default()), config);
    assert!(matches!(engine.submit_transaction(signed(1, 10, None), 10), Ok(None)));
    assert!(engine.ledger().get_transaction(1).is_some());
    // A second submission of the validated transaction is a double spend.
    assert!(engine.start_round_at(100).is_ok());
    assert_eq!(engine.validate_transactions_at(&AcceptAllProofs, 101).unwrap(), 1);
    let conflict = engine.submit_transaction(signed(1, 10, None), 102).unwrap().unwrap();
    assert_eq!(conflict.conflict_type, ConflictType::DoubleSpend);
    assert_eq!(conflict.transaction_ids, vec![1, 1]);
    // The vote confirms the only candidate.
    assert_eq!(engine.resolve_conflicts_fpc(&mut Always(true), 103).unwrap(), 1);
    assert_eq!(engine.ledger().status_of(1), Some(TransactionStatus::Confirmed));
    assert!(engine.current_round().as_ref().unwrap().conflicts[0].resolved);
    assert_eq!(engine.resolve_conflicts_fpc(&mut Always(true), 104).unwrap(), 0);
}

#[test]
fn a_proof_verifier_with_a_key_checks_the_proof_against_the_hash() {
    let verifier = ZKVerifier::new(vec![1, 2, 3]);
    let t = signed(1, 10, None);
    assert_eq!(
        verifier.verify(&t, &[9, 9]),
        verifier.check_proof_data(&[9, 9], &t.hash())
    );
    assert!(check_transaction(&verifier, &t));
    assert!(!check_transaction(&RefuseAllProofs, &t));
    assert!(!check_transaction(&AcceptAllProofs, &plain(2, 10, None)));
}

#[test]
fn a_round_starts_at_the_clock_reading() {
    let mut config = AdvancedConsensusConfig::default();
    config.round_duration = 3_600_000;
    let mut engine =
        ConsensusEngine::new(AdvancedDAGLedger::new(AdvancedDAGConfig::default()), config);
    assert!(engine.start_round().is_ok());
    let round = engine.current_round().as_ref().unwrap();
    assert_eq!(round.round_number, 1);
    assert_eq!(round.phase, ConsensusPhase::PrePrepare);
    assert_eq!(round.end_time, round.start_time + 3_600_000);
    assert!(round.start_time > 0);
    match engine.start_round() {
        Err(SDUPIError::Consensus(text)) => assert_eq!(text, "Consensus round already active"),
        other => panic!("unexpected answer {:?}", other),
    }
    assert_eq!(engine.get_statistics().unwrap().total_rounds, 1);
}

#[test]
fn tips_are_validated_at_the_clock_reading() {
    let mut config = AdvancedConsensusConfig::default();
    config.round_duration = 3_600_000;
    let mut engine =
        ConsensusEngine::new(AdvancedDAGLedger::new(AdvancedDAGConfig::default()), config);
    assert!(matches!(engine.submit_transaction(signed(1, 10, None), 50), Ok(None)));
    assert!(matches!(engine.submit_transaction(plain(2, 20, None), 50), Ok(None)));
    match engine.validate_transactions(&AcceptAllProofs) {
        Err(SDUPIError::Consensus(text)) => assert_eq!(text, "No active consensus round"),
        other => panic!("unexpected answer {:?}", other),
    }
    assert!(engine.start_round().is_ok());
    assert_eq!(engine.validate_transactions(&AcceptAllProofs).unwrap(), 1);
    assert_eq!(engine.ledger().status_of(1), Some(TransactionStatus::Validated));
    assert_eq!(engine.ledger().status_of(2), Some(TransactionStatus::Pending));
    assert_eq!(engine.current_round().as_ref().unwrap().validated_transactions, vec![1]);
}

#[test]
fn the_engine_with_workers_runs_a_round_at_the_clock_reading() {
    let mut config = AdvancedConsensusConfig::default();
    config.round_duration = 3_600_000;
    let mut engine =
        AdvancedConsensusEngine::new(AdvancedDAGLedger::new(AdvancedDAGConfig::default()), config);
    assert!(matches!(engine.submit_transaction(signed(1, 10, None), 10), Ok(None)));
    assert!(matches!(
        engine.execute_advanced_consensus(&AcceptAllProofs, &mut Always(true)),
        Err(SDUPIError::Consensus(_))
    ));
    assert!(engine.start_advanced_round().is_ok());
    let outcome = engine.execute_advanced_consensus(&AcceptAllProofs, &mut Always(true)).unwrap();
    assert!(outcome.success);
    assert_eq!(outcome.round_number, 1);
    assert_eq!(outcome.transactions_processed, 1);
    assert_eq!(engine.engine().ledger().status_of(1), Some(TransactionStatus::Confirmed));
    assert!(engine.engine().current_round().is_none());
    assert_eq!(engine.take_finished_rounds().len(), 1);
}

#[test]
fn statistics_follow_the_registrations() {
    let mut engine = engine();
    let stats = engine.get_statistics().unwrap();
    assert_eq!((stats.total_validators, stats.total_stake), (0, 0));
    assert!(engine.register_validator(pair(3).public_key(), 2_000).is_ok());
    assert!(engine.register_validator(pair(4).public_key(), 3_000).is_ok());
    let stats = engine.get_statistics().unwrap();
    assert_eq!((stats.total_validators, stats.total_stake), (2, 5_000));
    // A validator that registers again keeps its place and gets a fresh entry.
    assert!(engine.register_validator(pair(3).public_key(), 4_000).is_ok());
    let stats = engine.get_statistics().unwrap();
    assert_eq!((stats.total_validators, stats.total_stake), (2, 7_000));
    assert!(engine.register_validator(pair(5).public_key(), u64::MAX).is_ok());
    let stats = engine.get_statistics().unwrap();
    assert_eq!((stats.total_validators, stats.total_stake), (3, u64::MAX));
}

#[test]
fn the_third_phase_takes_in_what_the_workers_validated_and_keeps_the_batches() {
    let mut config = AdvancedConsensusConfig::default();
    config.round_duration = 100;
    config.batch_size = 2;
    let mut engine =
        AdvancedConsensusEngine::new(AdvancedDAGLedger::new(AdvancedDAGConfig::default()), config);
    assert!(matches!(engine.submit_transaction(signed(1, 30, None), 10), Ok(None)));
    assert!(matches!(engine.submit_transaction(plain(2, 20, None), 10), Ok(None)));
    assert!(matches!(engine.submit_transaction(signed(3, 10, None), 10), Ok(None)));
    assert!(engine.start_advanced_round_at(100).is_ok());
    assert!(engine
        .execute_phase(ConsensusPhase::PrePrepare, &AcceptAllProofs, &mut Always(true), 110)
        .is_ok());
    let waiting = engine.engine().transaction_batches();
    assert_eq!(waiting.len(), 2);
    assert_eq!(waiting[0].ids(), vec![1, 2]);
    assert_eq!(waiting[0].priority_score, 25);
    assert_eq!(waiting[0].timestamp, 110);
    assert_eq!(waiting[1].ids(), vec![3]);
    let first_batch = waiting[0].batch_id;
    assert!(engine
        .execute_phase(ConsensusPhase::Prepare, &AcceptAllProofs, &mut Always(true), 120)
        .is_ok());
    assert_eq!(engine.engine().transaction_batches().len(), 2);
    assert!(engine
        .execute_phase(ConsensusPhase::Commit, &AcceptAllProofs, &mut Always(true), 130)
        .is_ok());
    assert!(engine.engine().transaction_batches().is_empty());
    let round = engine.engine().current_round().as_ref().unwrap();
    assert_eq!(round.phase, ConsensusPhase::Finalize);
    assert_eq!(round.validated_transactions, vec![1, 3]);
    assert_eq!(round.processed_batches.len(), 2);
    assert_eq!(round.processed_batches[0].batch_id, first_batch);
    assert_eq!(round.processed_batches[0].ids(), vec![1, 2]);
    assert_eq!(round.processed_batches[1].ids(), vec![3]);
    assert_eq!(engine.engine().ledger().status_of(1), Some(TransactionStatus::Validated));
    assert_eq!(engine.engine().ledger().status_of(2), Some(TransactionStatus::Pending));
    assert_eq!(engine.engine().ledger().status_of(3), Some(TransactionStatus::Validated));
    assert!(engine
        .execute_phase(ConsensusPhase::Finalize, &AcceptAllProofs, &mut Always(true), 140)
        .is_ok());
    assert_eq!(engine.engine().ledger().status_of(1), Some(TransactionStatus::Confirmed));
    assert_eq!(engine.engine().ledger().status_of(2), Some(TransactionStatus::Pending));
    assert_eq!(engine.engine().ledger().status_of(3), Some(TransactionStatus::Confirmed));
    let records = engine.take_finished_rounds();
    assert_eq!(records.len(), 1);
    assert_eq!(records[0].metrics.transactions_processed, 2);
    assert_eq!(records[0].metrics.processing_time, 40);
    assert_eq!(records[0].metrics.tps_achieved, 50);
}

#[test]
fn a_round_without_duration_is_over_when_it_starts() {
    let mut config = AdvancedConsensusConfig::default();
    config.round_duration = 0;
    assert!(config.is_usable());
    let mut engine =
        ConsensusEngine::new(AdvancedDAGLedger::new(AdvancedDAGConfig::default()), config);
    assert!(engine.start_round_at(100).is_ok());
    let round = engine.current_round().as_ref().unwrap();
    assert_eq!((round.start_time, round.end_time), (100, 100));
    match engine.validate_transactions_at(&AcceptAllProofs, 100) {
        Err(SDUPIError::Consensus(text)) => assert_eq!(text, "Consensus round has ended"),
        other => panic!("unexpected answer {:?}", other),
    }
    assert!(engine.start_round_at(100).is_ok());
    assert_eq!(engine.get_statistics().unwrap().total_rounds, 2);
}

#[test]
fn a_vote_leaves_alone_what_is_no_candidate() {
    let mut ledger = AdvancedDAGLedger::new(AdvancedDAGConfig::default());
    for id in [1, 2, 3] {
        assert!(matches!(ledger.add_transaction_advanced(plain(id, 10, None), 50), Ok(None)));
    }
    let mut conflicts = vec![
        Conflict {
            transaction_ids: vec![1, 2],
            conflict_type: ConflictType::DoubleSpend,
            detected_at: 60,
            resolved: false,
        },
        Conflict {
            transaction_ids: vec![3, 7],
            conflict_type: ConflictType::DoubleSpend,
            detected_at: 61,
            resolved: false,
        },
    ];
    let before = ledger.get_transaction(3).unwrap();
    let count = sdupi_core::consensus::resolver::resolve_all(
        &mut ledger,
        &mut conflicts,
        &mut OnlyFor(2),
        10,
        67,
        70,
    );
    assert_eq!(count, 1);
    assert!(conflicts[0].resolved);
    assert!(!conflicts[1].resolved);
    assert_eq!(ledger.status_of(2), Some(TransactionStatus::Confirmed));
    assert_eq!(ledger.status_of(1), Some(TransactionStatus::Rejected));
    let after = ledger.get_transaction(3).unwrap();
    assert_eq!(after.status, TransactionStatus::Pending);
    assert_eq!(after.hash(), before.hash());
}

struct Recorded {
    answers: Vec<bool>,
    asked: Vec<u128>,
}

impl VotingStrategy for Recorded {
    fn vote(&mut self, candidate: u128) -> bool {
        let answer = self.answers[self.asked.len() % self.answers.len()];
        self.asked.push(candidate);
        answer
    }
}

#[test]
fn a_poll_asks_about_every_candidate_once_in_every_round() {
    let mut strategy = Recorded { answers: vec![true, false, true, true, false, false], asked: vec![] };
    let tallies = collect_votes(&mut strategy, &vec![7, 8, 9], 4);
    assert_eq!(strategy.asked, vec![7, 8, 9, 7, 8, 9, 7, 8, 9, 7, 8, 9]);
    // candidate 7 hears answers 0, 3, 0, 3 of the six; 8 hears 1, 4, 1, 4; 9 hears 2, 5, 2, 5.
    assert_eq!(tallies, vec![4, 0, 2]);
    let mut silent = Recorded { answers: vec![true], asked: vec![] };
    assert_eq!(collect_votes(&mut silent, &vec![7, 8], 0), vec![0, 0]);
    assert!(silent.asked.is_empty());
    assert_eq!(collect_votes(&mut silent, &vec![], 5), Vec::<u64>::new());
    assert!(silent.asked.is_empty());
}

#[test]
fn the_tallies_of_the_poll_decide_the_conflict() {
    let fresh = || {
        let mut ledger = AdvancedDAGLedger::new(AdvancedDAGConfig::default());
        for id in [1, 2] {
            assert!(matches!(ledger.add_transaction_advanced(plain(id, 10, None), 50), Ok(None)));
        }
        let conflict = Conflict {
            transaction_ids: vec![1, 2],
            conflict_type: ConflictType::DoubleSpend,
            detected_at: 60,
            resolved: false,
        };
        (ledger, conflict)
    };
    // Two of three votes for the second candidate reach two thirds in hundredths.
    let (mut ledger, mut conflict) = fresh();
    let mut strategy = Recorded { answers: vec![false, true, false, true, false, false], asked: vec![] };
    assert_eq!(
        resolve_conflict_fpc(&mut ledger, &mut conflict, &mut strategy, 3, 66, 70).unwrap(),
        true
    );
    assert_eq!(strategy.asked, vec![1, 2, 1, 2, 1, 2]);
    assert!(conflict.resolved);
    assert_eq!(ledger.status_of(2), Some(TransactionStatus::Confirmed));
    assert_eq!(ledger.status_of(1), Some(TransactionStatus::Rejected));
    // One vote short of the threshold leaves the conflict open.
    let (mut ledger, mut conflict) = fresh();
    let mut strategy = Recorded { answers: vec![false, true, false, true, false, false], asked: vec![] };
    assert_eq!(
        resolve_conflict_fpc(&mut ledger, &mut conflict, &mut strategy, 3, 67, 70).unwrap(),
        false
    );
    assert_eq!(strategy.asked.len(), 6);
    assert!(!conflict.resolved);
    assert_eq!(ledger.status_of(1), Some(TransactionStatus::Pending));
    assert_eq!(ledger.status_of(2), Some(TransactionStatus::Pending));
    // Without rounds no vote is cast and nobody wins.
    let (mut ledger, mut conflict) = fresh();
    let mut strategy = Recorded { answers: vec![true], asked: vec![] };
    assert_eq!(
        resolve_conflict_fpc(&mut ledger, &mut conflict, &mut strategy, 0, 0, 70).unwrap(),
        false
    );
    assert!(strategy.asked.is_empty());
    // With a threshold of nothing the first candidate wins whatever the votes.
    let (mut ledger, mut conflict) = fresh();
    assert_eq!(
        resolve_conflict_fpc(&mut ledger, &mut conflict, &mut Always(false), 5, 0, 70).unwrap(),
        true
    );
    assert_eq!(ledger.status_of(1), Some(TransactionStatus::Confirmed));
    assert_eq!(ledger.status_of(2), Some(TransactionStatus::Rejected));
    // A conflict that is resolved is refused before any vote.
    let mut strategy = Recorded { answers: vec![true], asked: vec![] };
    assert!(matches!(
        resolve_conflict_fpc(&mut ledger, &mut conflict, &mut strategy, 5, 0, 70),
        Err(SDUPIError::ConflictResolution(_))
    ));
    assert!(strategy.asked.is_empty());
}

#[test]
fn the_time_of_the_last_validation_never_goes_back() {
    let mut registry = ValidatorRegistry::new(1_000);
    let key = pair(3).public_key();
    assert!(registry.register(key, 2_000).is_ok());
    registry.record_validation(&key, 500);
    assert_eq!(registry.get(&key).unwrap().last_validation, Some(500));
    registry.record_validation(&key, 300);
    let entry = registry.get(&key).unwrap();
    assert_eq!(entry.last_validation, Some(500));
    assert_eq!(entry.validation_count, 2);
    registry.record_validation(&key, 700);
    let entry = registry.get(&key).unwrap();
    assert_eq!(entry.last_validation, Some(700));
    assert_eq!(entry.validation_count, 3);
    // A validator that is not registered is not credited.
    registry.record_validation(&pair(4).public_key(), 900);
    assert!(registry.get(&pair(4).public_key()).is_none());
}
