use sdupi_core::consensus::{
    AdvancedConsensusRound, Conflict, ConflictType, ConsensusPhase, RoundMetrics, ValidatorStake,
};
use sdupi_core::crypto::KeyPair;
use sdupi_core::storage::records::{
    get_transaction_count_by_status, get_transactions_by_status, round_key, transaction_key,
};
use sdupi_core::storage::{ConflictData, ConsensusRoundData, ValidatorStakeData};
use sdupi_core::transaction::{Transaction, TransactionStatus};

fn sample() -> ConsensusRoundData {
    ConsensusRoundData {
        round_number: 7,
        start_time: 1_000,
        end_time: 1_005,
        validators: vec!["aa".to_string(), "validator-ü".to_string(), String::new()],
        validated_transactions: vec![1, u128::MAX, 3],
        conflicts: vec![
            ConflictData {
                transaction_ids: vec![4, 5],
                conflict_type: "DoubleSpend".to_string(),
                detected_at: 1_001,
                resolved: true,
            },
            ConflictData {
                transaction_ids: vec![],
                conflict_type: "InvalidParent".to_string(),
                detected_at: 1_002,
                resolved: false,
            },
        ],
    }
}

fn same(a: &ConsensusRoundData, b: &ConsensusRoundData) {
    assert_eq!(a.round_number, b.round_number);
    assert_eq!(a.start_time, b.start_time);
    assert_eq!(a.end_time, b.end_time);
    assert_eq!(a.validators, b.validators);
    assert_eq!(a.validated_transactions, b.validated_transactions);
    assert_eq!(a.conflicts.len(), b.conflicts.len());
    for (x, y) in a.conflicts.iter().zip(b.conflicts.iter()) {
        assert_eq!(x.transaction_ids, y.transaction_ids);
        assert_eq!(x.conflict_type, y.conflict_type);
        assert_eq!(x.detected_at, y.detected_at);
        assert_eq!(x.resolved, y.resolved);
    }
}

#[test]
fn a_stored_round_is_read_back_as_it_was_written() {
    let round = sample();
    let bytes = round.encode();
    let back = ConsensusRoundData::decode(&bytes).unwrap();
    same(&round, &back);
    assert_eq!(back.encode(), bytes);

    let empty = ConsensusRoundData {
        round_number: 0,
        start_time: 0,
        end_time: 0,
        validators: vec![],
        validated_transactions: vec![],
        conflicts: vec![],
    };
    let bytes = empty.encode();
    assert_eq!(bytes.len(), 48);
    same(&empty, &ConsensusRoundData::decode(&bytes).unwrap());
}

#[test]
fn the_bytes_of_a_round_follow_the_format() {
    let round = ConsensusRoundData {
        round_number: 1,
        start_time: 2,
        end_time: 3,
        validators: vec!["ab".to_string()],
        validated_transactions: vec![9],
        conflicts: vec![ConflictData {
            transaction_ids: vec![],
            conflict_type: "x".to_string(),
            detected_at: 4,
            resolved: true,
        }],
    };
    let mut expected: Vec<u8> = Vec::new();
    for n in [1u64, 2, 3] {
        expected.extend_from_slice(&n.to_le_bytes());
    }
    expected.extend_from_slice(&1u64.to_le_bytes());
    expected.extend_from_slice(&2u64.to_le_bytes());
    expected.extend_from_slice(b"ab");
    expected.extend_from_slice(&1u64.to_le_bytes());
    expected.extend_from_slice(&16u64.to_le_bytes());
    expected.extend_from_slice(&9u128.to_be_bytes());
    expected.extend_from_slice(&1u64.to_le_bytes());
    expected.extend_from_slice(&0u64.to_le_bytes());
    expected.extend_from_slice(&1u64.to_le_bytes());
    expected.extend_from_slice(b"x");
    expected.extend_from_slice(&4u64.to_le_bytes());
    expected.push(1);
    assert_eq!(round.encode(), expected);
}

#[test]
fn bytes_that_hold_no_round_are_refused() {
    let bytes = sample().encode();
    assert!(ConsensusRoundData::decode(&[]).is_none());
    assert!(ConsensusRoundData::decode(&bytes[..bytes.len() - 1]).is_none());
    let mut longer = bytes.clone();
    longer.push(0);
    assert!(ConsensusRoundData::decode(&longer).is_none());
    let mut bad_flag = bytes.clone();
    let last = bad_flag.len() - 1;
    bad_flag[last] = 2;
    assert!(ConsensusRoundData::decode(&bad_flag).is_none());
    // A validator name that is not UTF-8.
    let mut bad_text = bytes.clone();
    bad_text[24 + 8 + 8] = 0xff;
    assert!(ConsensusRoundData::decode(&bad_text).is_none());
    // A list that claims more elements than there are bytes.
    let mut bad_count = bytes;
    bad_count[24..32].copy_from_slice(&u64::MAX.to_le_bytes());
    assert!(ConsensusRoundData::decode(&bad_count).is_none());
}

#[test]
fn records_are_made_from_rounds_conflicts_and_stakes() {
    let key = KeyPair::from_secret_key_bytes(&[5; 32]).unwrap().public_key();
    let round = AdvancedConsensusRound {
        round_number: 3,
        start_time: 10,
        end_time: 15,
        phase: ConsensusPhase::Finalize,
        validators: vec![key],
        validated_transactions: vec![1, 2],
        conflicts: vec![Conflict {
            transaction_ids: vec![8],
            conflict_type: ConflictType::InvalidParent,
            detected_at: 11,
            resolved: false,
        }],
        processed_batches: vec![],
        metrics: RoundMetrics::default(),
    };
    let record = ConsensusRoundData::from_round(&round);
    assert_eq!(record.round_number, 3);
    assert_eq!(record.start_time, 10);
    assert_eq!(record.end_time, 15);
    assert_eq!(record.validators, vec![key.to_hex()]);
    assert_eq!(record.validated_transactions, vec![1, 2]);
    assert_eq!(record.conflicts[0].conflict_type, "InvalidParent");
    assert_eq!(record.conflicts[0].transaction_ids, vec![8]);
    same(&record, &ConsensusRoundData::decode(&record.encode()).unwrap());

    let names: Vec<String> = [
        ConflictType::DoubleSpend,
        ConflictType::InvalidParent,
        ConflictType::InsufficientStake,
        ConflictType::InvalidZKProof,
    ]
    .iter()
    .map(|kind| {
        ConflictData::from_conflict(&Conflict {
            transaction_ids: vec![],
            conflict_type: *kind,
            detected_at: 0,
            resolved: true,
        })
        .conflict_type
    })
    .collect();
    assert_eq!(names, vec!["DoubleSpend", "InvalidParent", "InsufficientStake", "InvalidZKProof"]);

    let stake = ValidatorStake {
        public_key: key,
        stake_amount: 1000,
        last_validation: Some(1234567890),
        validation_count: 5,
    };
    let stored = ValidatorStakeData::from_stake(&stake);
    assert_eq!(stored.public_key, key.to_hex());
    assert_eq!(stored.stake_amount, 1000);
    assert_eq!(stored.last_validation, Some(1234567890));
    assert_eq!(stored.validation_count, 5);
}

#[test]
fn keys_and_filters_of_stored_transactions() {
    assert_eq!(
        transaction_key(0xa1a2a3a4_b1b2_c1c2_d1d2_d3d4d5d6d7d8),
        "a1a2a3a4-b1b2-c1c2-d1d2-d3d4d5d6d7d8"
    );
    assert_eq!(round_key(0), "0");
    assert_eq!(round_key(1234567890), "1234567890");
    assert_eq!(round_key(u64::MAX), "18446744073709551615");

    let make = |id: u128, status: TransactionStatus| {
        let mut t = Transaction::with_identity(
            id,
            0,
            KeyPair::from_secret_key_bytes(&[1; 32]).unwrap().public_key(),
            KeyPair::from_secret_key_bytes(&[2; 32]).unwrap().public_key(),
            1,
            1,
            None,
            None,
        );
        t.status = status;
        t
    };
    let all = vec![
        make(1, TransactionStatus::Pending),
        make(2, TransactionStatus::Confirmed),
        make(3, TransactionStatus::Pending),
    ];
    let pending = get_transactions_by_status(&all, TransactionStatus::Pending);
    assert_eq!(pending.iter().map(|t| t.id).collect::<Vec<_>>(), vec![1, 3]);
    assert_eq!(get_transaction_count_by_status(&all, TransactionStatus::Confirmed), 1);
    assert_eq!(get_transaction_count_by_status(&all, TransactionStatus::Rejected), 0);
}

#[test]
fn reading_back_gives_the_round_that_was_written() {
    let round = sample();
    let back = round.read_back().unwrap();
    same(&round, &back);
}

#[test]
fn identifiers_are_written_as_hyphenated_text() {
    assert_eq!(
        sdupi_core::ambient::uuid_text(0x0123_4567_89ab_cdef_0011_2233_4455_6677),
        "01234567-89ab-cdef-0011-223344556677"
    );
    assert_eq!(sdupi_core::ambient::uuid_text(0), "00000000-0000-0000-0000-000000000000");
    assert_eq!(sdupi_core::ambient::uuid_text(u128::MAX), "ffffffff-ffff-ffff-ffff-ffffffffffff");
}

#[test]
fn a_stored_round_has_the_bytes_that_bincode_gives_its_fields() {
    let first = 0x0123_4567_89ab_cdef_0011_2233_4455_6677u128;
    let round = ConsensusRoundData {
        round_number: 7,
        start_time: 1_000,
        end_time: 1_005,
        validators: vec!["a1b2".to_string(), "c3".to_string()],
        validated_transactions: vec![first, 2],
        conflicts: vec![ConflictData {
            transaction_ids: vec![first, first],
            conflict_type: "DoubleSpend".to_string(),
            detected_at: 1_001,
            resolved: false,
        }],
    };
    let id = |x: u128| uuid::Uuid::from_u128(x).as_bytes().to_vec();
    let fields = (
        7u64,
        1_000u64,
        1_005u64,
        vec!["a1b2".to_string(), "c3".to_string()],
        vec![id(first), id(2)],
        vec![(vec![id(first), id(first)], "DoubleSpend".to_string(), 1_001u64, false)],
    );
    assert_eq!(round.encode(), bincode::serialize(&fields).unwrap());
    let back = ConsensusRoundData::decode(&round.encode()).unwrap();
    assert_eq!(back.validated_transactions, vec![first, 2]);
    assert_eq!(back.conflicts[0].transaction_ids, vec![first, first]);
}
