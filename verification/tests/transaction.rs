use sdupi_core::crypto::{sha256, KeyPair};
use sdupi_core::error::SDUPIError;
use sdupi_core::transaction::{Transaction, TransactionStatus};

#[test]
fn test_transaction_creation() {
    let keypair = KeyPair::generate();
    let recipient = KeyPair::generate().public_key();

    let tx = Transaction::new(keypair.public_key(), recipient, 1000, 10, None, None);

    assert_eq!(tx.amount, 1000);
    assert_eq!(tx.fee, 10);
    assert_eq!(tx.status, TransactionStatus::Pending);
    assert!(tx.parent1.is_none());
    assert!(tx.parent2.is_none());
}

#[test]
fn test_transaction_validation() {
    let keypair = KeyPair::generate();
    let recipient = KeyPair::generate().public_key();

    let tx = Transaction::new(keypair.public_key(), recipient, 1000, 10, None, None);

    assert!(tx.validate_structure().is_ok());
}

#[test]
fn test_transaction_hash_consistency() {
    let keypair = KeyPair::generate();
    let recipient = KeyPair::generate().public_key();

    let tx1 = Transaction::new(keypair.public_key(), recipient.clone(), 1000, 10, None, None);

    let tx2 = Transaction::new(keypair.public_key(), recipient, 1000, 10, None, None);

    // Different identifiers produce different hashes.
    assert_ne!(tx1.hash(), tx2.hash());
}

fn pair(seed: u8) -> KeyPair {
    KeyPair::from_secret_key_bytes(&[seed; 32]).unwrap()
}

#[test]
fn structure_errors_name_the_first_fault() {
    let sender = pair(1).public_key();
    let recipient = pair(2).public_key();
    let text = |t: &Transaction| match t.validate_structure() {
        Err(SDUPIError::TransactionValidation(text)) => text,
        other => panic!("unexpected answer {:?}", other),
    };
    let zero_amount = Transaction::with_identity(1, 0, sender, recipient, 0, 0, None, None);
    assert_eq!(text(&zero_amount), "Transaction amount cannot be zero");
    let zero_fee = Transaction::with_identity(1, 0, sender, recipient, 5, 0, None, None);
    assert_eq!(text(&zero_fee), "Transaction fee cannot be zero");
    let to_self = Transaction::with_identity(1, 0, sender, sender, 5, 1, None, None);
    assert_eq!(text(&to_self), "Sender and recipient cannot be the same");
    let fine = Transaction::with_identity(1, 0, sender, recipient, 1, 1, None, None);
    assert!(fine.validate_structure().is_ok());
}

#[test]
fn hash_covers_every_field_but_status_signature_and_proof() {
    let sender = pair(1).public_key();
    let recipient = pair(2).public_key();
    let mut t = Transaction::with_identity(
        0x0102,
        0x0304,
        sender,
        recipient,
        5,
        6,
        Some(9),
        None,
    );
    t.metadata = vec![0xaa, 0xbb];
    let mut expected: Vec<u8> = Vec::new();
    expected.extend_from_slice(&0x0102u128.to_le_bytes());
    expected.extend_from_slice(&0x0304u64.to_le_bytes());
    expected.extend_from_slice(&sender.to_bytes());
    expected.extend_from_slice(&recipient.to_bytes());
    expected.extend_from_slice(&5u64.to_le_bytes());
    expected.extend_from_slice(&6u64.to_le_bytes());
    expected.push(1);
    expected.extend_from_slice(&9u128.to_le_bytes());
    expected.push(0);
    expected.extend_from_slice(&[0xaa, 0xbb]);
    assert_eq!(t.signing_bytes(), expected);
    assert_eq!(t.hash(), sha256(&expected));

    let before = t.hash();
    t.set_signature(vec![1; 64]);
    t.set_zk_proof(vec![2; 8]);
    t.mark_validated();
    assert_eq!(t.hash(), before);
    t.fee = 7;
    assert_ne!(t.hash(), before);
}

#[test]
fn readiness_needs_signature_and_proof() {
    let mut t = Transaction::with_identity(
        1,
        0,
        pair(1).public_key(),
        pair(2).public_key(),
        5,
        1,
        None,
        None,
    );
    assert!(!t.is_ready_for_validation());
    t.set_signature(vec![1; 64]);
    assert!(!t.is_ready_for_validation());
    t.set_zk_proof(vec![2]);
    assert!(t.is_ready_for_validation());
    t.mark_validated();
    assert!(!t.is_ready_for_validation());
}

#[test]
fn status_moves_only_along_its_steps() {
    let mut t = Transaction::with_identity(
        1,
        0,
        pair(1).public_key(),
        pair(2).public_key(),
        5,
        1,
        None,
        None,
    );
    assert!(TransactionStatus::Pending.can_step_to(TransactionStatus::Validated));
    assert!(TransactionStatus::Pending.can_step_to(TransactionStatus::Rejected));
    assert!(TransactionStatus::Validated.can_step_to(TransactionStatus::Confirmed));
    assert!(!TransactionStatus::Pending.can_step_to(TransactionStatus::Confirmed));
    assert!(!TransactionStatus::Confirmed.can_step_to(TransactionStatus::Rejected));
    t.mark_confirmed();
    assert_eq!(t.status, TransactionStatus::Pending);
    t.mark_validated();
    assert_eq!(t.status, TransactionStatus::Validated);
    t.mark_rejected();
    assert_eq!(t.status, TransactionStatus::Validated);
    t.mark_confirmed();
    assert_eq!(t.status, TransactionStatus::Confirmed);
    t.mark_rejected();
    assert_eq!(t.status, TransactionStatus::Confirmed);

    let copy = t.clone();
    assert_eq!(copy, t);
    assert_eq!(copy.status, TransactionStatus::Confirmed);
}
