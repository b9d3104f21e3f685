use sdupi_core::consensus::ConflictType;
use sdupi_core::crypto::KeyPair;
use sdupi_core::dag::{AdvancedDAGConfig, AdvancedDAGLedger};
use sdupi_core::error::SDUPIError;
use sdupi_core::transaction::{Transaction, TransactionStatus};

fn transfer(id: u128, fee: u64, parent1: Option<u128>, parent2: Option<u128>) -> Transaction {
    let sender = KeyPair::from_secret_key_bytes(&[1u8; 32]).unwrap().public_key();
    let recipient = KeyPair::from_secret_key_bytes(&[2u8; 32]).unwrap().public_key();
    Transaction::with_identity(id, 1_000, sender, recipient, 1000, fee, parent1, parent2)
}

#[test]
fn chain_of_three_has_one_tip_until_it_is_confirmed() {
    let mut ledger = AdvancedDAGLedger::new(AdvancedDAGConfig::default());
    assert!(matches!(ledger.add_transaction_advanced(transfer(1, 10, None, None), 2_000), Ok(None)));
    assert_eq!(ledger.get_tips(), vec![1]);
    assert!(matches!(ledger.add_transaction_advanced(transfer(2, 10, Some(1), None), 2_000), Ok(None)));
    assert_eq!(ledger.get_tips(), vec![2]);
    assert!(matches!(ledger.add_transaction_advanced(transfer(3, 10, Some(2), None), 2_000), Ok(None)));
    assert_eq!(ledger.get_tips(), vec![3]);
    assert_eq!(ledger.children_of(1), Some(vec![2]));
    assert_eq!(ledger.children_of(2), Some(vec![3]));
    assert!(ledger.confirm_transaction(3, 3_000).is_ok());
    assert_eq!(ledger.get_tips(), vec![2]);
    assert_eq!(ledger.status_of(3), Some(TransactionStatus::Confirmed));
}

#[test]
fn second_insert_of_a_settled_id_is_a_double_spend() {
    let mut ledger = AdvancedDAGLedger::new(AdvancedDAGConfig::default());
    assert!(matches!(ledger.add_transaction_advanced(transfer(7, 10, None, None), 2_000), Ok(None)));
    assert!(ledger.validate_transaction(7, 2_500).is_ok());
    let answer = ledger.add_transaction_advanced(transfer(7, 10, None, None), 3_000).unwrap();
    let conflict = answer.expect("a conflict");
    assert_eq!(conflict.conflict_type, ConflictType::DoubleSpend);
    assert_eq!(conflict.transaction_ids, vec![7, 7]);
    assert_eq!(conflict.detected_at, 3_000);
    assert!(!conflict.resolved);
    assert_eq!(ledger.len(), 1);
}

#[test]
fn insert_with_an_absent_parent_is_an_invalid_parent() {
    let mut ledger = AdvancedDAGLedger::new(AdvancedDAGConfig::default());
    let answer = ledger.add_transaction_advanced(transfer(9, 10, Some(5), None), 3_000).unwrap();
    let conflict = answer.expect("a conflict");
    assert_eq!(conflict.conflict_type, ConflictType::InvalidParent);
    assert_eq!(conflict.transaction_ids, vec![9]);
    assert_eq!(ledger.len(), 0);
    assert!(ledger.get_tips().is_empty());
}

#[test]
fn malformed_transactions_do_not_enter() {
    let mut ledger = AdvancedDAGLedger::new(AdvancedDAGConfig::default());
    let mut zero_fee = transfer(1, 10, None, None);
    zero_fee.fee = 0;
    match ledger.add_transaction_advanced(zero_fee, 2_000) {
        Err(SDUPIError::TransactionValidation(text)) => {
            assert_eq!(text, "Transaction fee cannot be zero")
        }
        other => panic!("unexpected answer {:?}", other),
    }
    assert_eq!(ledger.len(), 0);
}

#[test]
fn queue_is_ordered_by_priority_and_tips_are_capped() {
    let mut config = AdvancedDAGConfig::default();
    config.max_tips = 2;
    let mut ledger = AdvancedDAGLedger::new(config);
    for (id, fee) in [(1u128, 5u64), (2, 50), (3, 20), (4, 50)] {
        assert!(matches!(
            ledger.add_transaction_advanced(transfer(id, fee, None, None), 2_000),
            Ok(None)
        ));
    }
    assert_eq!(ledger.pending_transactions(), vec![2, 4, 3, 1]);
    assert_eq!(ledger.get_tips(), vec![2, 4]);
    assert!(ledger.confirm_transaction(2, 3_000).is_ok());
    assert_eq!(ledger.get_tips(), vec![4, 3]);
    assert_eq!(ledger.pending_transactions(), vec![4, 3, 1]);
}
