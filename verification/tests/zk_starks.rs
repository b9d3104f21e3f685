use sdupi_core::crypto::sha256;
use sdupi_core::zk_starks::circuits;
use sdupi_core::zk_starks::{ZKError, ZKProof, ZKProver, ZKVerifier};

#[test]
fn test_zk_proof_creation() {
    let proof = ZKProof {
        id: uuid::Uuid::new_v4().as_u128(),
        proof_data: vec![1, 2, 3, 4],
        public_inputs: vec![5, 6, 7, 8],
        verification_key: vec![9, 10, 11, 12],
        timestamp: 1234567890,
    };

    assert_eq!(proof.proof_data.len(), 4);
    assert_eq!(proof.public_inputs.len(), 4);
    assert_eq!(proof.verification_key.len(), 4);
}

#[test]
fn test_circuit_creation() {
    let circuit = circuits::create_transaction_privacy_circuit();

    assert_eq!(circuit.circuit_id, "transaction_privacy_v1");
    assert_eq!(circuit.input_constraints.len(), 2);
    assert_eq!(circuit.output_constraints.len(), 1);
    assert_eq!(circuit.parameters.security_parameter, 128);
}

#[test]
fn test_prover_creation() {
    let circuit = circuits::create_transaction_privacy_circuit();
    let proving_key = vec![1, 2, 3, 4];

    let prover = ZKProver::new(circuit, proving_key);

    assert_eq!(prover.proving_key().len(), 4);
}

#[test]
fn test_verifier_creation() {
    let verification_key = vec![1, 2, 3, 4];
    let verifier = ZKVerifier::new(verification_key);

    assert_eq!(verifier.verification_key().len(), 4);
}

#[test]
fn balance_circuit_has_one_range_constraint() {
    let circuit = circuits::create_balance_proof_circuit();
    assert_eq!(circuit.circuit_id, "balance_proof_v1");
    assert_eq!(circuit.input_constraints.len(), 1);
    assert_eq!(circuit.output_constraints.len(), 0);
    assert_eq!(circuit.parameters.num_constraints, 500);
    assert_eq!(circuit.input_constraints[0].parameters[1].name, "max");
    assert_eq!(circuit.input_constraints[0].parameters[1].value, "1000000000000");
}

#[test]
fn proof_is_the_digest_of_inputs_and_key() {
    let prover = ZKProver::new(circuits::create_transaction_privacy_circuit(), vec![9, 9]);
    let proof = prover.generate_proof_with(7, 1234, &[1, 2], &[3]).unwrap();
    assert_eq!(proof.id, 7);
    assert_eq!(proof.timestamp, 1234);
    assert_eq!(proof.public_inputs, vec![3]);
    assert_eq!(proof.proof_data, sha256(&[1, 2, 3, 9, 9]));
    let mut key_input = b"transaction_privacy_v1".to_vec();
    key_input.extend_from_slice(&u64::MAX.to_le_bytes());
    assert_eq!(proof.verification_key, sha256(&key_input));
}

#[test]
fn generated_proof_verifies_under_its_key() {
    let prover = ZKProver::new(circuits::create_transaction_privacy_circuit(), vec![1, 2, 3]);
    let proof = prover.generate_proof(&[10, 20], &[30, 40]).unwrap();
    let verifier = ZKVerifier::new(proof.verification_key.clone());
    assert_eq!(verifier.verify_proof(&proof, &[30, 40]).unwrap(), true);
}

#[test]
fn verifier_refuses_other_inputs_and_other_keys() {
    let prover = ZKProver::new(circuits::create_transaction_privacy_circuit(), vec![1, 2, 3]);
    let proof = prover.generate_proof(&[10, 20], &[30, 40]).unwrap();
    let verifier = ZKVerifier::new(proof.verification_key.clone());
    match verifier.verify_proof(&proof, &[30]) {
        Err(ZKError::Verification(text)) => assert_eq!(text, "Public inputs mismatch"),
        other => panic!("unexpected answer {:?}", other),
    }
    let stranger = ZKVerifier::new(vec![0]);
    match stranger.verify_proof(&proof, &[30, 40]) {
        Err(e) => assert_eq!(e.message(), "Verification failed: Verification key mismatch"),
        other => panic!("unexpected answer {:?}", other),
    }
}

#[test]
fn inputs_longer_than_the_field_are_refused() {
    let mut circuit = circuits::create_balance_proof_circuit();
    circuit.parameters.field_size = 2;
    let prover = ZKProver::new(circuit, vec![]);
    match prover.generate_proof(&[1, 2, 3], &[]) {
        Err(ZKError::InputValidation(text)) => assert_eq!(text, "Private inputs too long"),
        other => panic!("unexpected answer {:?}", other),
    }
    match prover.generate_proof(&[1, 2], &[1, 2, 3]) {
        Err(ZKError::InputValidation(text)) => assert_eq!(text, "Public inputs too long"),
        other => panic!("unexpected answer {:?}", other),
    }
    assert!(prover.generate_proof(&[1, 2], &[3, 4]).is_ok());
}
