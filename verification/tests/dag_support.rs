use sdupi_core::ambient::{millis_from_reading, now_millis};
use sdupi_core::consensus::ConflictType;
use sdupi_core::crypto::KeyPair;
use sdupi_core::dag::batch::{cut_pending, dispatch_plan};
use sdupi_core::dag::priority::{
    age_in_seconds, calculate_priority_score, conflict_probability_of, magnitude,
};
use sdupi_core::dag::support::extract_transaction_pattern;
use sdupi_core::dag::{
    AIConflictPredictor, AdvancedDAGConfig, AdvancedDAGLedger, ConflictResolutionAlgorithm,
    DAGPerformanceMetrics, MemoryPool, PredictiveCache, PriorityWeights, ProcessingStatus,
    ProcessingWorker, TransactionBatch,
};
use sdupi_core::error::SDUPIError;
use sdupi_core::transaction::{Transaction, TransactionStatus};

fn pair(seed: u8) -> KeyPair {
    KeyPair::from_secret_key_bytes(&[seed; 32]).unwrap()
}

fn transfer(id: u128, fee: u64, parent1: Option<u128>, parent2: Option<u128>) -> Transaction {
    Transaction::with_identity(
        id,
        1_000,
        pair(1).public_key(),
        pair(2).public_key(),
        1000,
        fee,
        parent1,
        parent2,
    )
}

#[test]
fn test_advanced_dag_config_defaults() {
    let config = AdvancedDAGConfig::default();

    assert_eq!(config.max_tips, 10_000);
    assert_eq!(config.parallel_workers, 64);
    assert_eq!(config.batch_size, 50_000);
    assert_eq!(config.memory_pool_size, 100_000);
    assert!(config.enable_predictive_caching);
    assert!(config.enable_zero_copy);
}

#[test]
fn test_memory_pool_creation() {
    let pool = MemoryPool::new(1000, 100);

    assert_eq!(pool.total_blocks(), 10);
    assert_eq!(pool.used_blocks(), 0);
    assert_eq!(pool.utilization() as f64 / 1000.0, 0.0);
}

#[test]
fn test_memory_pool_allocation() {
    let mut pool = MemoryPool::new(1000, 100);

    let block = pool.allocate();
    assert!(block.is_some());
    assert_eq!(pool.used_blocks(), 1);
    assert_eq!(pool.utilization() as f64 / 1000.0, 0.1);

    if let Some(block) = block {
        pool.deallocate(block);
        assert_eq!(pool.used_blocks(), 0);
        assert_eq!(pool.utilization() as f64 / 1000.0, 0.0);
    }
}

#[test]
fn test_ai_conflict_predictor() {
    let predictor = AIConflictPredictor::new();

    let keypair = KeyPair::generate();
    let recipient = KeyPair::generate().public_key();

    let transaction = Transaction::new(keypair.public_key(), recipient, 1000, 10, None, None);

    let conflict_probability = predictor.predict_conflict(&transaction) as f64 / 1_000_000.0;
    assert!(conflict_probability >= 0.0 && conflict_probability <= 1.0);
}

#[test]
fn test_advanced_dag_ledger_creation() {
    let config = AdvancedDAGConfig::default();
    let ledger = AdvancedDAGLedger::new(config);

    let stats = ledger.get_advanced_statistics().unwrap();
    assert_eq!(stats.total_transactions, 0);
    assert_eq!(stats.pending_transactions, 0);
    assert_eq!(stats.tips_count, 0);
}

#[test]
fn pool_hands_out_each_block_once() {
    let mut pool = MemoryPool::new(250, 100);
    assert_eq!(pool.block_size(), 100);
    assert_eq!(pool.total_blocks(), 2);
    let first = pool.allocate().unwrap();
    assert_eq!(first, vec![0u8; 100]);
    let second = pool.allocate().unwrap();
    assert!(pool.allocate().is_none());
    assert_eq!(pool.utilization(), 1000);
    pool.deallocate(vec![0u8; 99]);
    assert_eq!(pool.used_blocks(), 2);
    pool.deallocate(second);
    assert_eq!(pool.used_blocks(), 1);
    assert_eq!(pool.utilization(), 500);
    pool.deallocate(first);
    pool.deallocate(vec![0u8; 100]);
    assert_eq!(pool.used_blocks(), 0);
    assert_eq!(MemoryPool::new(50, 100).utilization(), 0);
}

#[test]
fn priority_score_follows_its_formula() {
    assert_eq!(magnitude(0), 0);
    assert_eq!(magnitude(9), 0);
    assert_eq!(magnitude(10), 1);
    assert_eq!(magnitude(1000), 3);
    assert_eq!(magnitude(u64::MAX), 19);
    assert_eq!(age_in_seconds(1_000, 3_999), 2);
    assert_eq!(age_in_seconds(5_000, 3_000), 0);
    assert_eq!(conflict_probability_of(0, 0), 100_000);
    assert_eq!(conflict_probability_of(9, 0), 10_000);
    assert_eq!(conflict_probability_of(9, 1), 5_000);
    assert_eq!(conflict_probability_of(u64::MAX, u64::MAX), 0);

    let t = transfer(1, 9, None, None);
    let weights = PriorityWeights::default();
    // fee 9, age 1 s, amount 1000: 10*9 + 100*(1 - 0.005) + 50/2 + 20*3, in millionths.
    assert_eq!(
        calculate_priority_score(&t, &weights, 2_000),
        90_000_000 + 99_500_000 + 25_000_000 + 60_000_000
    );
    let greedy = PriorityWeights { fee: 1, certainty: 0, recency: 0, amount: 0 };
    assert_eq!(calculate_priority_score(&t, &greedy, 2_000), 9_000_000);
    let largest = Transaction::with_identity(
        1,
        0,
        pair(1).public_key(),
        pair(2).public_key(),
        u64::MAX,
        u64::MAX,
        None,
        None,
    );
    let heavy = PriorityWeights {
        fee: u32::MAX,
        certainty: u32::MAX,
        recency: u32::MAX,
        amount: u32::MAX,
    };
    let score = calculate_priority_score(&largest, &heavy, u64::MAX);
    assert!(score > (u32::MAX as u128) * (u64::MAX as u128) * 1_000_000);
}

#[test]
fn predictor_and_pattern_read_the_transaction() {
    let predictor = AIConflictPredictor::new_at(5);
    assert_eq!(predictor.accuracy, 880);
    assert_eq!(predictor.model.model_type, "neural_network");
    assert_eq!(predictor.model.last_updated, 5);
    let t = transfer(1, 9, None, None);
    assert_eq!(predictor.predict_conflict_at(&t, 2_000), 5_000);
    let head = &pair(1).public_key().to_hex()[..8];
    assert_eq!(extract_transaction_pattern(&t), format!("{}_1000_9", head));
}

#[test]
fn pattern_cache_counts_patterns() {
    let mut cache = PredictiveCache::new();
    assert_eq!(cache.hit_rate(), None);
    cache.record("a_1_1".to_string(), 10);
    cache.record("b_1_1".to_string(), 11);
    cache.record("a_1_1".to_string(), 12);
    assert_eq!(cache.hit_rate(), None);
}

#[test]
fn measurements_follow_their_formulas() {
    let mut metrics = DAGPerformanceMetrics::default();
    assert_eq!(metrics.parallel_efficiency, 1000);
    metrics.update(4, 250, None);
    assert_eq!(metrics.total_transactions, 1);
    assert_eq!(metrics.avg_processing_time, 2);
    assert_eq!(metrics.current_tps, 250);
    assert_eq!(metrics.peak_tps, 250);
    assert_eq!(metrics.memory_utilization, 250);
    assert_eq!(metrics.cache_hit_rate, 0);
    metrics.update(0, 0, Some(900));
    assert_eq!(metrics.total_transactions, 2);
    assert_eq!(metrics.avg_processing_time, 1);
    assert_eq!(metrics.current_tps, 1000);
    assert_eq!(metrics.peak_tps, 1000);
    assert_eq!(metrics.cache_hit_rate, 900);
    metrics.update(2_000, 0, None);
    assert_eq!(metrics.current_tps, 0);
    assert_eq!(metrics.peak_tps, 1000);
    assert_eq!(metrics.cache_hit_rate, 900);
}

#[test]
fn statistics_count_by_status() {
    let mut ledger = AdvancedDAGLedger::new(AdvancedDAGConfig::default());
    for id in 1..=4u128 {
        assert!(matches!(ledger.add_transaction_advanced(transfer(id, 10, None, None), 2_000), Ok(None)));
    }
    assert!(ledger.validate_transaction(1, 2_100).is_ok());
    assert!(ledger.confirm_transaction(2, 2_100).is_ok());
    assert!(ledger.reject_transaction(3).is_ok());
    let stats = ledger.get_statistics().unwrap();
    assert_eq!(stats.total_transactions, 4);
    assert_eq!(stats.pending_transactions, 1);
    assert_eq!(stats.validated_transactions, 1);
    assert_eq!(stats.confirmed_transactions, 1);
    assert_eq!(stats.tips_count, 3);
    assert_eq!(ledger.count_with_status(TransactionStatus::Rejected), 1);
    assert_eq!(ledger.len(), 4);
    assert!(ledger.contains(4));
    assert!(!ledger.contains(5));
    assert_eq!(ledger.get_transaction(2).unwrap().status, TransactionStatus::Confirmed);
    assert!(ledger.get_transaction(9).is_none());
    assert_eq!(ledger.get_performance_metrics().unwrap(), DAGPerformanceMetrics::default());
}

#[test]
fn status_changes_follow_the_steps_and_name_their_errors() {
    let mut ledger = AdvancedDAGLedger::new(AdvancedDAGConfig::default());
    assert!(matches!(ledger.add_transaction_advanced(transfer(1, 10, None, None), 2_000), Ok(None)));
    assert!(matches!(ledger.validate_transaction(7, 1), Err(SDUPIError::NodeNotFound(_))));
    assert!(matches!(ledger.confirm_transaction(7, 1), Err(SDUPIError::NodeNotFound(_))));
    assert!(matches!(ledger.reject_transaction(7), Err(SDUPIError::NodeNotFound(_))));
    assert!(ledger.validate_transaction(1, 2_100).is_ok());
    assert!(ledger.validate_transaction(1, 2_200).is_ok());
    assert!(matches!(ledger.reject_transaction(1), Err(SDUPIError::InvalidDAG(_))));
    assert!(ledger.confirm_transaction(1, 2_300).is_ok());
    assert!(ledger.confirm_transaction(1, 2_400).is_ok());
    assert!(matches!(ledger.validate_transaction(1, 2_500), Err(SDUPIError::InvalidDAG(_))));
    assert_eq!(ledger.status_of(1), Some(TransactionStatus::Confirmed));

    assert!(matches!(ledger.add_transaction_advanced(transfer(2, 10, None, None), 2_000), Ok(None)));
    assert!(ledger.reject_transaction(2).is_ok());
    assert!(ledger.reject_transaction(2).is_ok());
    assert!(matches!(ledger.confirm_transaction(2, 1), Err(SDUPIError::InvalidDAG(_))));
    assert_eq!(ledger.status_of(2), Some(TransactionStatus::Rejected));
}

#[test]
fn pending_duplicates_and_settled_transactions_do_not_enter() {
    let mut ledger = AdvancedDAGLedger::new(AdvancedDAGConfig::default());
    assert!(matches!(ledger.add_transaction_advanced(transfer(1, 10, None, None), 2_000), Ok(None)));
    match ledger.add_transaction_advanced(transfer(1, 10, None, None), 2_000) {
        Err(SDUPIError::InvalidDAG(text)) => assert_eq!(text, "Transaction already exists"),
        other => panic!("unexpected answer {:?}", other),
    }
    let mut settled = transfer(2, 10, None, None);
    settled.status = TransactionStatus::Confirmed;
    match ledger.add_transaction_advanced(settled, 2_000) {
        Err(SDUPIError::InvalidDAG(text)) => {
            assert_eq!(text, "Only pending transactions can be added")
        }
        other => panic!("unexpected answer {:?}", other),
    }
    // A missing parent comes before a collision.
    assert!(ledger.validate_transaction(1, 2_100).is_ok());
    let both = ledger.add_transaction_advanced(transfer(1, 10, Some(77), None), 2_000).unwrap();
    assert_eq!(both.unwrap().conflict_type, ConflictType::InvalidParent);
    assert!(ledger.detect_conflict(&transfer(3, 10, Some(1), None), 5).is_none());
    assert_eq!(
        ledger.detect_conflict(&transfer(3, 10, None, Some(4)), 5).unwrap().conflict_type,
        ConflictType::InvalidParent
    );
    assert_eq!(ledger.len(), 1);
}

#[test]
fn a_child_of_two_parents_is_listed_by_both() {
    let mut ledger = AdvancedDAGLedger::new(AdvancedDAGConfig::default());
    assert!(matches!(ledger.add_transaction_advanced(transfer(1, 10, None, None), 2_000), Ok(None)));
    assert!(matches!(ledger.add_transaction_advanced(transfer(2, 20, None, None), 2_000), Ok(None)));
    assert!(matches!(ledger.add_transaction_advanced(transfer(3, 5, Some(1), Some(2)), 2_000), Ok(None)));
    assert!(matches!(ledger.add_transaction_advanced(transfer(4, 5, Some(1), Some(1)), 2_000), Ok(None)));
    let mut children = ledger.children_of(1).unwrap();
    children.sort();
    assert_eq!(children, vec![3, 4]);
    assert_eq!(ledger.children_of(2), Some(vec![3]));
    assert_eq!(ledger.children_of(3), Some(vec![]));
    assert_eq!(ledger.children_of(9), None);
    assert_eq!(ledger.get_tips(), vec![3, 4]);
    assert!(ledger.confirm_transaction(3, 2_100).is_ok());
    assert_eq!(ledger.get_tips(), vec![2, 4]);
    assert!(ledger.confirm_transaction(4, 2_100).is_ok());
    assert_eq!(ledger.get_tips(), vec![2, 1]);
}

#[test]
fn queue_is_cut_into_full_batches_and_a_rest() {
    let mut config = AdvancedDAGConfig::default();
    config.batch_size = 2;
    config.parallel_workers = 3;
    let mut ledger = AdvancedDAGLedger::new(config);
    for (id, fee) in [(1u128, 10u64), (2, 20), (3, 35), (4, 40), (5, 50)] {
        assert!(matches!(ledger.add_transaction_advanced(transfer(id, fee, None, None), 2_000), Ok(None)));
    }
    let batches = ledger.create_batches(7);
    let ids: Vec<Vec<u128>> = batches.iter().map(|b| b.ids()).collect();
    assert_eq!(ids, vec![vec![5, 4], vec![3, 2], vec![1]]);
    assert_eq!(batches.iter().map(|b| b.size).collect::<Vec<_>>(), vec![2, 2, 1]);
    assert_eq!(batches.iter().map(|b| b.priority_score).collect::<Vec<_>>(), vec![45, 27, 10]);
    assert!(batches.iter().all(|b| b.timestamp == 7));
    assert_eq!(cut_pending(&ledger, 5, 7).len(), 1);
    assert_eq!(cut_pending(&ledger, 6, 7).len(), 1);
    assert_eq!(cut_pending(&ledger, 1, 7).len(), 5);
    assert_eq!(dispatch_plan(5, 3), vec![0, 1, 2, 0, 1]);
    assert_eq!(dispatch_plan(0, 3), Vec::<usize>::new());
    assert_eq!(ledger.process_transactions_parallel_at(9).unwrap(), 5);
    assert_eq!(ledger.process_transactions_parallel().unwrap(), 5);
    assert_eq!(ledger.pending_transactions(), vec![5, 4, 3, 2, 1]);
    assert_eq!(ledger.get_performance_metrics().unwrap().total_transactions, 1);

    let empty = AdvancedDAGLedger::new(AdvancedDAGConfig::default());
    assert!(empty.create_batches(1).is_empty());
}

#[test]
fn workers_process_every_transaction_of_a_batch() {
    let batch = TransactionBatch::with_id(11, vec![transfer(1, 1, None, None), transfer(2, 2, None, None)], 3);
    let result = ProcessingWorker { worker_id: 4 }.process_batch(&batch, 8);
    assert_eq!(result.batch_id, 11);
    assert_eq!(result.status, ProcessingStatus::Success);
    assert_eq!(result.processed_transactions, vec![1, 2]);
    assert_eq!(result.processing_time, 8);
    assert_eq!(result.worker_id, 4);
}

#[test]
fn clocked_insert_counts_the_operation() {
    let mut ledger = AdvancedDAGLedger::new(AdvancedDAGConfig::default());
    let first = Transaction::new(pair(1).public_key(), pair(2).public_key(), 5, 1, None, None);
    let id = first.id;
    assert!(matches!(ledger.add_transaction(first), Ok(None)));
    assert!(ledger.contains(id));
    assert_eq!(ledger.get_performance_metrics().unwrap().total_transactions, 1);
    let dangling = Transaction::new(pair(1).public_key(), pair(2).public_key(), 5, 1, Some(1), None);
    assert!(matches!(ledger.add_transaction(dangling), Ok(Some(_))));
    assert_eq!(ledger.get_performance_metrics().unwrap().total_transactions, 1);
    let conflict_default = AdvancedDAGConfig::default().conflict_resolution;
    assert_eq!(conflict_default.algorithm, ConflictResolutionAlgorithm::AIConflictResolution);
    assert_eq!(conflict_default.parallel_workers, 32);
    assert!(AdvancedDAGConfig::default().is_usable());
}

#[test]
fn prediction_now_is_the_prediction_at_the_clock_reading() {
    let predictor = AIConflictPredictor::new();
    // A transaction stamped after every clock reading has age zero.
    let mut young = transfer(1, 9, None, None);
    young.timestamp = u64::MAX;
    assert_eq!(predictor.predict_conflict(&young), 10_000);
    assert_eq!(predictor.predict_conflict(&young), predictor.predict_conflict_at(&young, 0));
    // With a fee this high no chance is left at any age.
    let dear = transfer(2, 100_000, None, None);
    assert_eq!(predictor.predict_conflict(&dear), 0);
}

#[test]
fn clock_readings_are_clamped_counts_of_milliseconds() {
    assert_eq!(millis_from_reading(-5), 0);
    assert_eq!(millis_from_reading(0), 0);
    assert_eq!(millis_from_reading(1_700_000_000_000), 1_700_000_000_000);
    assert_eq!(millis_from_reading(i64::MAX), i64::MAX as u64);
    let first = now_millis();
    assert!(first <= i64::MAX as u64);
}

#[test]
fn a_block_given_back_is_the_last_to_be_handed_out_again() {
    let mut pool = MemoryPool::new(300, 100);
    let mut first = pool.allocate().unwrap();
    assert_eq!(first.len(), 100);
    assert!(first.iter().all(|byte| *byte == 0));
    first[0] = 7;
    pool.deallocate(first);
    assert_eq!(pool.used_blocks(), 0);
    assert_eq!(pool.allocate().unwrap(), vec![0u8; 100]);
    assert_eq!(pool.allocate().unwrap(), vec![0u8; 100]);
    let last = pool.allocate().unwrap();
    assert_eq!(last.len(), 100);
    assert_eq!(last[0], 7);
    assert!(pool.allocate().is_none());
    assert_eq!(pool.used_blocks(), 3);
}
