//! Privacy proofs for transactions: circuits, a prover and a verifier.
//!
//! The proof system is a stand-in: a proof is a SHA-256 digest over the
//! inputs and the proving key, and a proof is valid when the digest over
//! proof, public inputs and verification key has a byte that is not zero.

use vstd::prelude::*;
use vstd::bytes::*;
use vstd::utf8::encode_utf8;
use crate::ambient::{fresh_id, now_millis};
use crate::crypto::{sha256, sha256_digest};

pub mod circuits;

verus! {

/// A privacy proof.
#[derive(Debug)]
pub struct ZKProof {
    pub id: u128,
    pub proof_data: Vec<u8>,
    pub public_inputs: Vec<u8>,
    pub verification_key: Vec<u8>,
    /// Creation time in seconds since the Unix epoch.
    pub timestamp: u64,
}

/// The mathematical value of a proof.
pub ghost struct ZKProofView {
    pub id: u128,
    pub proof_data: Seq<u8>,
    pub public_inputs: Seq<u8>,
    pub verification_key: Seq<u8>,
    pub timestamp: u64,
}

impl View for ZKProof {
    type V = ZKProofView;

    open spec fn view(&self) -> ZKProofView {
        ZKProofView {
            id: self.id,
            proof_data: self.proof_data@,
            public_inputs: self.public_inputs@,
            verification_key: self.verification_key@,
            timestamp: self.timestamp,
        }
    }
}

/// Kinds of constraints.
#[derive(Debug)]
pub enum ConstraintType {
    /// A value lies in a range.
    Range,
    /// Two values are equal.
    Equality,
    Inequality,
    /// A constraint with a name of its own.
    Custom(String),
}

/// The mathematical value of a constraint kind.
pub ghost enum ConstraintKind {
    Range,
    Equality,
    Inequality,
    Custom(Seq<char>),
}

impl View for ConstraintType {
    type V = ConstraintKind;

    open spec fn view(&self) -> ConstraintKind {
        match self {
            ConstraintType::Range => ConstraintKind::Range,
            ConstraintType::Equality => ConstraintKind::Equality,
            ConstraintType::Inequality => ConstraintKind::Inequality,
            ConstraintType::Custom(name) => ConstraintKind::Custom(name@),
        }
    }
}

/// A named parameter of a constraint.
#[derive(Debug)]
pub struct ConstraintParameter {
    pub name: String,
    pub value: String,
}

/// A constraint of a circuit. No two parameters share a name.
#[derive(Debug)]
pub struct Constraint {
    pub constraint_type: ConstraintType,
    pub parameters: Vec<ConstraintParameter>,
}

/// The mathematical value of a constraint: its kind and its parameters as
/// pairs of name and value.
pub ghost struct ConstraintView {
    pub kind: ConstraintKind,
    pub parameters: Seq<(Seq<char>, Seq<char>)>,
}

impl View for Constraint {
    type V = ConstraintView;

    open spec fn view(&self) -> ConstraintView {
        ConstraintView {
            kind: self.constraint_type@,
            parameters: Seq::new(
                self.parameters@.len(),
                |i: int| (self.parameters@[i].name@, self.parameters@[i].value@),
            ),
        }
    }
}

/// The views of a list of constraints.
pub open spec fn constraint_views(constraints: Seq<Constraint>) -> Seq<ConstraintView> {
    Seq::new(constraints.len(), |i: int| constraints[i]@)
}

/// Numeric parameters of a circuit.
#[derive(Debug, Clone, Copy, PartialEq, Eq, Structural)]
pub struct CircuitParameters {
    /// Largest number of input bytes.
    pub field_size: u64,
    pub num_constraints: usize,
    pub security_parameter: u64,
}

/// A circuit that constrains the inputs of a proof.
#[derive(Debug)]
pub struct TransactionPrivacyCircuit {
    pub circuit_id: String,
    pub input_constraints: Vec<Constraint>,
    pub output_constraints: Vec<Constraint>,
    pub parameters: CircuitParameters,
}

/// The mathematical value of a circuit.
pub ghost struct CircuitView {
    pub circuit_id: Seq<char>,
    pub input_constraints: Seq<ConstraintView>,
    pub output_constraints: Seq<ConstraintView>,
    pub parameters: CircuitParameters,
}

impl View for TransactionPrivacyCircuit {
    type V = CircuitView;

    open spec fn view(&self) -> CircuitView {
        CircuitView {
            circuit_id: self.circuit_id@,
            input_constraints: constraint_views(self.input_constraints@),
            output_constraints: constraint_views(self.output_constraints@),
            parameters: self.parameters,
        }
    }
}

/// Errors of proving and verifying.
#[derive(Debug)]
pub enum ZKError {
    InputValidation(String),
    ProofGeneration(String),
    Verification(String),
    Circuit(String),
    Internal(String),
}

impl ZKError {
    /// The text shown for the error.
    pub open spec fn spec_message(self) -> Seq<char> {
        match self {
            ZKError::InputValidation(s) => "Input validation failed: "@ + s@,
            ZKError::ProofGeneration(s) => "Proof generation failed: "@ + s@,
            ZKError::Verification(s) => "Verification failed: "@ + s@,
            ZKError::Circuit(s) => "Circuit error: "@ + s@,
            ZKError::Internal(s) => "Internal error: "@ + s@,
        }
    }

    /// Renders the error as text.
    pub fn message(&self) -> (text: String)
        ensures
            text@ == self.spec_message(),
    {
        match self {
            ZKError::InputValidation(s) => String::from_str("Input validation failed: ").concat(
                s.as_str(),
            ),
            ZKError::ProofGeneration(s) => String::from_str("Proof generation failed: ").concat(
                s.as_str(),
            ),
            ZKError::Verification(s) => String::from_str("Verification failed: ").concat(
                s.as_str(),
            ),
            ZKError::Circuit(s) => String::from_str("Circuit error: ").concat(s.as_str()),
            ZKError::Internal(s) => String::from_str("Internal error: ").concat(s.as_str()),
        }
    }
}

/// What the inputs of a proof are checked against: neither may be longer than
/// the circuit's field size.
pub open spec fn inputs_fit(field_size: u64, private_inputs: Seq<u8>, public_inputs: Seq<u8>) -> bool {
    private_inputs.len() <= field_size && public_inputs.len() <= field_size
}

/// The proof data for given inputs under a proving key.
pub open spec fn proof_data_of(
    private_inputs: Seq<u8>,
    public_inputs: Seq<u8>,
    proving_key: Seq<u8>,
) -> Seq<u8> {
    sha256_digest(private_inputs + public_inputs + proving_key)
}

/// The verification key of a circuit.
pub open spec fn verification_key_of(circuit_id: Seq<u8>, field_size: u64) -> Seq<u8> {
    sha256_digest(circuit_id + spec_u64_to_le_bytes(field_size))
}

/// Whether a byte string has a byte that is not zero.
pub open spec fn has_nonzero(bytes: Seq<u8>) -> bool {
    exists|i: int| 0 <= i < bytes.len() && bytes[i] != 0
}

/// Whether the stand-in check accepts a proof.
pub open spec fn proof_accepted(
    proof_data: Seq<u8>,
    public_inputs: Seq<u8>,
    verification_key: Seq<u8>,
) -> bool {
    has_nonzero(sha256_digest(proof_data + public_inputs + verification_key))
}

fn push_all(target: &mut Vec<u8>, bytes: &[u8])
    ensures
        final(target)@ == old(target)@ + bytes@,
{
    let mut i: usize = 0;
    while i < bytes.len()
        invariant
            i <= bytes.len(),
            target@ == old(target)@ + bytes@.subrange(0, i as int),
        decreases bytes.len() - i,
    {
        target.push(bytes[i]);
        assert(target@ =~= old(target)@ + bytes@.subrange(0, i + 1));
        i += 1;
    }
    assert(bytes@.subrange(0, bytes.len() as int) =~= bytes@);
}

fn same_bytes(a: &[u8], b: &[u8]) -> (same: bool)
    ensures
        same == (a@ == b@),
{
    if a.len() != b.len() {
        return false;
    }
    let mut i: usize = 0;
    while i < a.len()
        invariant
            i <= a.len(),
            a@.len() == b@.len(),
            forall|j: int| 0 <= j < i ==> a@[j] == b@[j],
        decreases a.len() - i,
    {
        if a[i] != b[i] {
            return false;
        }
        i += 1;
    }
    assert(a@ =~= b@);
    true
}

/// Produces proofs for a circuit.
#[derive(Debug)]
pub struct ZKProver {
    circuit: TransactionPrivacyCircuit,
    proving_key: Vec<u8>,
}

impl ZKProver {
    /// The prover's circuit.
    pub closed spec fn circuit_view(&self) -> CircuitView {
        self.circuit@
    }

    /// The prover's key.
    pub closed spec fn key_view(&self) -> Seq<u8> {
        self.proving_key@
    }

    /// The bytes of the circuit's identifier, encoded as UTF-8.
    pub open spec fn circuit_id_bytes(&self) -> Seq<u8> {
        encode_utf8(self.circuit_view().circuit_id)
    }

    /// Creates a prover for a circuit.
    pub fn new(circuit: TransactionPrivacyCircuit, proving_key: Vec<u8>) -> (prover: ZKProver)
        ensures
            prover.circuit_view() == circuit@,
            prover.key_view() == proving_key@,
    {
        ZKProver { circuit, proving_key }
    }

    /// The proving key.
    pub fn proving_key(&self) -> (key: &Vec<u8>)
        ensures
            key@ == self.key_view(),
    {
        &self.proving_key
    }

    /// The circuit.
    pub fn circuit(&self) -> (circuit: &TransactionPrivacyCircuit)
        ensures
            circuit@ == self.circuit_view(),
    {
        &self.circuit
    }

    /// Generates a proof with a fresh identifier, stamped with the current
    /// time in seconds.
    pub fn generate_proof(&self, private_inputs: &[u8], public_inputs: &[u8]) -> (result: Result<
        ZKProof,
        ZKError,
    >)
        ensures
            result is Ok <==> inputs_fit(
                self.circuit_view().parameters.field_size,
                private_inputs@,
                public_inputs@,
            ),
            result matches Ok(proof) ==> proof@.proof_data == proof_data_of(
                private_inputs@,
                public_inputs@,
                self.key_view(),
            ) && proof@.public_inputs == public_inputs@ && proof@.verification_key
                == verification_key_of(
                self.circuit_id_bytes(),
                self.circuit_view().parameters.field_size,
            ),
            result matches Err(e) ==> e matches ZKError::InputValidation(m) && m@ == (
            if private_inputs@.len() > self.circuit_view().parameters.field_size {
                "Private inputs too long"@
            } else {
                "Public inputs too long"@
            }),
    {
        self.generate_proof_with(fresh_id(), now_millis() / 1000, private_inputs, public_inputs)
    }

    /// Generates the proof with a given identifier and timestamp: the inputs
    /// are checked against the circuit, the proof data is the digest of the
    /// inputs and the proving key, and the verification key is the digest of
    /// the circuit's identifier and field size.
    pub fn generate_proof_with(
        &self,
        id: u128,
        timestamp: u64,
        private_inputs: &[u8],
        public_inputs: &[u8],
    ) -> (result: Result<ZKProof, ZKError>)
        ensures
            result is Ok <==> inputs_fit(
                self.circuit_view().parameters.field_size,
                private_inputs@,
                public_inputs@,
            ),
            result matches Ok(proof) ==> proof@ == (ZKProofView {
                id,
                proof_data: proof_data_of(private_inputs@, public_inputs@, self.key_view()),
                public_inputs: public_inputs@,
                verification_key: verification_key_of(
                    self.circuit_id_bytes(),
                    self.circuit_view().parameters.field_size,
                ),
                timestamp,
            }),
            result matches Err(e) ==> e matches ZKError::InputValidation(m) && m@ == (
            if private_inputs@.len() > self.circuit_view().parameters.field_size {
                "Private inputs too long"@
            } else {
                "Public inputs too long"@
            }),
    {
        match self.validate_inputs(private_inputs, public_inputs) {
            Err(e) => {
                return Err(e);
            },
            Ok(()) => {},
        }
        let proof_data = self.generate_proof_data(private_inputs, public_inputs);
        let verification_key = self.generate_verification_key();
        let mut inputs: Vec<u8> = Vec::new();
        push_all(&mut inputs, public_inputs);
        assert(inputs@ =~= public_inputs@);
        Ok(ZKProof { id, proof_data, public_inputs: inputs, verification_key, timestamp })
    }

    /// Checks the inputs against the circuit: their lengths against the field
    /// size, then every input constraint.
    pub fn validate_inputs(&self, private_inputs: &[u8], public_inputs: &[u8]) -> (result: Result<
        (),
        ZKError,
    >)
        ensures
            result is Ok <==> inputs_fit(
                self.circuit_view().parameters.field_size,
                private_inputs@,
                public_inputs@,
            ),
            result matches Err(e) ==> e matches ZKError::InputValidation(m) && m@ == (
            if private_inputs@.len() > self.circuit_view().parameters.field_size {
                "Private inputs too long"@
            } else {
                "Public inputs too long"@
            }),
    {
        if private_inputs.len() as u64 > self.circuit.parameters.field_size {
            return Err(ZKError::InputValidation(String::from_str("Private inputs too long")));
        }
        if public_inputs.len() as u64 > self.circuit.parameters.field_size {
            return Err(ZKError::InputValidation(String::from_str("Public inputs too long")));
        }
        let mut i: usize = 0;
        while i < self.circuit.input_constraints.len()
            invariant
                i <= self.circuit.input_constraints@.len(),
            decreases self.circuit.input_constraints@.len() - i,
        {
            match self.validate_constraint(
                &self.circuit.input_constraints[i],
                private_inputs,
                public_inputs,
            ) {
                Err(e) => {
                    return Err(e);
                },
                Ok(()) => {},
            }
            i += 1;
        }
        Ok(())
    }

    /// Checks one constraint. Every kind of constraint accepts every input.
    pub fn validate_constraint(
        &self,
        constraint: &Constraint,
        private_inputs: &[u8],
        public_inputs: &[u8],
    ) -> (result: Result<(), ZKError>)
        ensures
            result is Ok,
    {
        match &constraint.constraint_type {
            ConstraintType::Range => self.validate_range_constraint(
                constraint,
                private_inputs,
                public_inputs,
            ),
            ConstraintType::Equality => self.validate_equality_constraint(
                constraint,
                private_inputs,
                public_inputs,
            ),
            ConstraintType::Inequality => self.validate_inequality_constraint(
                constraint,
                private_inputs,
                public_inputs,
            ),
            ConstraintType::Custom(_) => self.validate_custom_constraint(
                constraint,
                private_inputs,
                public_inputs,
            ),
        }
    }

    /// Range constraints accept every input.
    pub fn validate_range_constraint(
        &self,
        _constraint: &Constraint,
        _private_inputs: &[u8],
        _public_inputs: &[u8],
    ) -> (result: Result<(), ZKError>)
        ensures
            result is Ok,
    {
        Ok(())
    }

    /// Equality constraints accept every input.
    pub fn validate_equality_constraint(
        &self,
        _constraint: &Constraint,
        _private_inputs: &[u8],
        _public_inputs: &[u8],
    ) -> (result: Result<(), ZKError>)
        ensures
            result is Ok,
    {
        Ok(())
    }

    /// Inequality constraints accept every input.
    pub fn validate_inequality_constraint(
        &self,
        _constraint: &Constraint,
        _private_inputs: &[u8],
        _public_inputs: &[u8],
    ) -> (result: Result<(), ZKError>)
        ensures
            result is Ok,
    {
        Ok(())
    }

    /// Custom constraints accept every input.
    pub fn validate_custom_constraint(
        &self,
        _constraint: &Constraint,
        _private_inputs: &[u8],
        _public_inputs: &[u8],
    ) -> (result: Result<(), ZKError>)
        ensures
            result is Ok,
    {
        Ok(())
    }

    /// The digest of private inputs, public inputs and proving key.
    fn generate_proof_data(&self, private_inputs: &[u8], public_inputs: &[u8]) -> (data: Vec<u8>)
        ensures
            data@ == proof_data_of(private_inputs@, public_inputs@, self.key_view()),
    {
        let mut message: Vec<u8> = Vec::new();
        push_all(&mut message, private_inputs);
        push_all(&mut message, public_inputs);
        push_all(&mut message, self.proving_key.as_slice());
        assert(message@ =~= private_inputs@ + public_inputs@ + self.proving_key@);
        sha256(message.as_slice())
    }

    /// The digest of the circuit's identifier and field size.
    fn generate_verification_key(&self) -> (key: Vec<u8>)
        ensures
            key@ == verification_key_of(
                self.circuit_id_bytes(),
                self.circuit_view().parameters.field_size,
            ),
    {
        let mut message: Vec<u8> = Vec::new();
        push_all(&mut message, self.circuit.circuit_id.as_str().as_bytes());
        let size = u64_to_le_bytes(self.circuit.parameters.field_size);
        push_all(&mut message, size.as_slice());
        assert(message@ =~= encode_utf8(self.circuit.circuit_id@) + spec_u64_to_le_bytes(
            self.circuit.parameters.field_size,
        ));
        sha256(message.as_slice())
    }
}

/// Checks proofs against a verification key.
#[derive(Debug)]
pub struct ZKVerifier {
    verification_key: Vec<u8>,
}

/// How a verifier answers a proof.
pub ghost enum Verdict {
    /// The public inputs are not those of the proof.
    InputsMismatch,
    /// The proof was made for another verification key.
    KeyMismatch,
    /// The proof was checked, with this outcome.
    Checked(bool),
}

impl ZKVerifier {
    /// The verifier's key.
    pub closed spec fn key_view(&self) -> Seq<u8> {
        self.verification_key@
    }

    /// Creates a verifier.
    pub fn new(verification_key: Vec<u8>) -> (verifier: ZKVerifier)
        ensures
            verifier.key_view() == verification_key@,
    {
        ZKVerifier { verification_key }
    }

    /// The verification key.
    pub fn verification_key(&self) -> (key: &Vec<u8>)
        ensures
            key@ == self.key_view(),
    {
        &self.verification_key
    }

    /// The answer to a proof presented with public inputs.
    pub open spec fn verdict(self, proof: ZKProofView, public_inputs: Seq<u8>) -> Verdict {
        if proof.public_inputs != public_inputs {
            Verdict::InputsMismatch
        } else if proof.verification_key != self.key_view() {
            Verdict::KeyMismatch
        } else {
            Verdict::Checked(proof_accepted(proof.proof_data, public_inputs, self.key_view()))
        }
    }

    /// Verifies a proof: the public inputs and the verification key must be
    /// those of the proof; then the proof data is checked.
    pub fn verify_proof(&self, proof: &ZKProof, public_inputs: &[u8]) -> (result: Result<
        bool,
        ZKError,
    >)
        ensures
            match self.verdict(proof@, public_inputs@) {
                Verdict::InputsMismatch => result matches Err(ZKError::Verification(m)) && m@
                    == "Public inputs mismatch"@,
                Verdict::KeyMismatch => result matches Err(ZKError::Verification(m)) && m@
                    == "Verification key mismatch"@,
                Verdict::Checked(valid) => result == Ok::<bool, ZKError>(valid),
            },
    {
        if !same_bytes(proof.public_inputs.as_slice(), public_inputs) {
            return Err(ZKError::Verification(String::from_str("Public inputs mismatch")));
        }
        if !same_bytes(proof.verification_key.as_slice(), self.verification_key.as_slice()) {
            return Err(ZKError::Verification(String::from_str("Verification key mismatch")));
        }
        Ok(self.verify_proof_data(proof, public_inputs))
    }

    /// Whether the digest of proof data, public inputs and verification key
    /// has a byte that is not zero.
    fn verify_proof_data(&self, proof: &ZKProof, public_inputs: &[u8]) -> (valid: bool)
        ensures
            valid == proof_accepted(proof@.proof_data, public_inputs@, self.key_view()),
    {
        self.check_proof_data(proof.proof_data.as_slice(), public_inputs)
    }

    /// Checks proof data against public inputs under the verifier's key.
    pub fn check_proof_data(&self, proof_data: &[u8], public_inputs: &[u8]) -> (valid: bool)
        ensures
            valid == proof_accepted(proof_data@, public_inputs@, self.key_view()),
    {
        let mut message: Vec<u8> = Vec::new();
        push_all(&mut message, proof_data);
        push_all(&mut message, public_inputs);
        push_all(&mut message, self.verification_key.as_slice());
        assert(message@ =~= proof_data@ + public_inputs@ + self.verification_key@);
        let digest = sha256(message.as_slice());
        let mut i: usize = 0;
        while i < digest.len()
            invariant
                i <= digest@.len(),
                digest@ == sha256_digest(proof_data@ + public_inputs@ + self.verification_key@),
                forall|j: int| 0 <= j < i ==> digest@[j] == 0,
            decreases digest@.len() - i,
        {
            if digest[i] != 0 {
                return true;
            }
            i += 1;
        }
        false
    }
}

} // verus!
