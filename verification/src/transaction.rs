//! Transactions: the records that the ledger stores as graph nodes.

use vstd::prelude::*;
use vstd::bytes::*;
use crate::ambient::{fresh_id, now_millis};
use crate::crypto::{sha256, sha256_digest, PublicKey};
use crate::error::SDUPIError;

verus! {

/// Where a transaction stands on its way through the ledger.
#[derive(Debug, Clone, Copy, PartialEq, Eq, Hash, Structural)]
pub enum TransactionStatus {
    Pending,
    Validated,
    Confirmed,
    Rejected,
}

impl TransactionStatus {
    /// The single steps a status may take: a pending transaction is validated
    /// or rejected, a validated one is confirmed.
    pub open spec fn steps_to(self, next: TransactionStatus) -> bool {
        ||| (self == TransactionStatus::Pending && next == TransactionStatus::Validated)
        ||| (self == TransactionStatus::Pending && next == TransactionStatus::Rejected)
        ||| (self == TransactionStatus::Validated && next == TransactionStatus::Confirmed)
    }

    /// The statuses that can still be reached, in any number of steps.
    pub open spec fn reaches(self, next: TransactionStatus) -> bool {
        ||| self == next
        ||| self == TransactionStatus::Pending
        ||| (self == TransactionStatus::Validated && next == TransactionStatus::Confirmed)
    }

    /// Confirmed and rejected transactions never change again.
    pub open spec fn is_terminal(self) -> bool {
        self == TransactionStatus::Confirmed || self == TransactionStatus::Rejected
    }

    /// Whether one step leads from this status to `next`.
    pub fn can_step_to(self, next: TransactionStatus) -> (allowed: bool)
        ensures
            allowed == self.steps_to(next),
    {
        match (self, next) {
            (TransactionStatus::Pending, TransactionStatus::Validated) => true,
            (TransactionStatus::Pending, TransactionStatus::Rejected) => true,
            (TransactionStatus::Validated, TransactionStatus::Confirmed) => true,
            _ => false,
        }
    }
}

/// Every step is a way to reach, and reaching composes: a status history is
/// monotonic and never leaves a terminal status.
pub proof fn lemma_status_monotonic(a: TransactionStatus, b: TransactionStatus, c: TransactionStatus)
    ensures
        a.steps_to(b) ==> a.reaches(b),
        a.reaches(b) && b.reaches(c) ==> a.reaches(c),
        a.is_terminal() && a.reaches(b) ==> a == b,
        a.reaches(b) && b.reaches(a) ==> a == b,
{
}

/// The bytes of an optional byte string, as a mathematical value.
pub open spec fn opt_bytes_view(bytes: Option<Vec<u8>>) -> Option<Seq<u8>> {
    match bytes {
        Some(b) => Some(b@),
        None => None,
    }
}

/// A transfer between two keys, with up to two parent references that make
/// it a node of the graph.
#[derive(Debug)]
pub struct Transaction {
    /// Unique identifier.
    pub id: u128,
    /// Creation time in milliseconds since the Unix epoch.
    pub timestamp: u64,
    pub sender: PublicKey,
    pub recipient: PublicKey,
    /// Amount in the smallest unit.
    pub amount: u64,
    pub fee: u64,
    pub parent1: Option<u128>,
    pub parent2: Option<u128>,
    pub status: TransactionStatus,
    /// Opaque privacy proof.
    pub zk_proof: Option<Vec<u8>>,
    pub signature: Option<Vec<u8>>,
    /// Opaque metadata.
    pub metadata: Vec<u8>,
}

/// The mathematical value of a transaction.
pub ghost struct TransactionView {
    pub id: u128,
    pub timestamp: u64,
    pub sender: Seq<u8>,
    pub recipient: Seq<u8>,
    pub amount: u64,
    pub fee: u64,
    pub parent1: Option<u128>,
    pub parent2: Option<u128>,
    pub status: TransactionStatus,
    pub zk_proof: Option<Seq<u8>>,
    pub signature: Option<Seq<u8>>,
    pub metadata: Seq<u8>,
}

impl View for Transaction {
    type V = TransactionView;

    open spec fn view(&self) -> TransactionView {
        TransactionView {
            id: self.id,
            timestamp: self.timestamp,
            sender: self.sender@,
            recipient: self.recipient@,
            amount: self.amount,
            fee: self.fee,
            parent1: self.parent1,
            parent2: self.parent2,
            status: self.status,
            zk_proof: opt_bytes_view(self.zk_proof),
            signature: opt_bytes_view(self.signature),
            metadata: self.metadata@,
        }
    }
}

impl TransactionView {
    /// Amount and fee are positive and the sender does not pay itself.
    pub open spec fn structure_ok(self) -> bool {
        self.amount > 0 && self.fee > 0 && self.sender != self.recipient
    }

    /// Pending, signed and carrying a privacy proof.
    pub open spec fn ready(self) -> bool {
        self.status == TransactionStatus::Pending && self.signature is Some && self.zk_proof is Some
    }

    /// Whether the transaction names `id` as one of its parents.
    pub open spec fn has_parent(self, id: u128) -> bool {
        self.parent1 == Some(id) || self.parent2 == Some(id)
    }

    /// The same transaction with another status.
    pub open spec fn with_status(self, status: TransactionStatus) -> TransactionView {
        TransactionView { status, ..self }
    }

    /// The same transaction after an attempt to move it to `target`: it moves
    /// if one step leads there and stays as it is otherwise.
    pub open spec fn stepped(self, target: TransactionStatus) -> TransactionView {
        if self.status.steps_to(target) {
            self.with_status(target)
        } else {
            self
        }
    }

    /// The bytes that are hashed and signed: every field but the status, the
    /// signature and the privacy proof.
    pub open spec fn signing_payload(self) -> Seq<u8> {
        spec_u128_to_le_bytes(self.id) + spec_u64_to_le_bytes(self.timestamp) + self.sender
            + self.recipient + spec_u64_to_le_bytes(self.amount) + spec_u64_to_le_bytes(self.fee)
            + parent_payload(self.parent1) + parent_payload(self.parent2) + self.metadata
    }
}

/// Encoding of a parent reference inside the signing payload: a presence byte,
/// followed by the identifier when there is one.
pub open spec fn parent_payload(parent: Option<u128>) -> Seq<u8> {
    match parent {
        Some(id) => seq![1u8] + spec_u128_to_le_bytes(id),
        None => seq![0u8],
    }
}

/// Text of the error for each way in which a structure can be wrong.
pub open spec fn structure_error_text(t: TransactionView) -> Seq<char> {
    if t.amount == 0 {
        "Transaction amount cannot be zero"@
    } else if t.fee == 0 {
        "Transaction fee cannot be zero"@
    } else {
        "Sender and recipient cannot be the same"@
    }
}

fn clone_bytes(bytes: &Vec<u8>) -> (copy: Vec<u8>)
    ensures
        copy@ == bytes@,
{
    let mut copy: Vec<u8> = Vec::new();
    let mut i: usize = 0;
    while i < bytes.len()
        invariant
            i <= bytes.len(),
            copy@ == bytes@.subrange(0, i as int),
        decreases bytes.len() - i,
    {
        copy.push(bytes[i]);
        assert(copy@ =~= bytes@.subrange(0, i + 1));
        i += 1;
    }
    assert(bytes@.subrange(0, bytes.len() as int) =~= bytes@);
    copy
}

fn clone_opt_bytes(bytes: &Option<Vec<u8>>) -> (copy: Option<Vec<u8>>)
    ensures
        opt_bytes_view(copy) == opt_bytes_view(*bytes),
{
    match bytes {
        Some(b) => Some(clone_bytes(b)),
        None => None,
    }
}

fn append_bytes(target: &mut Vec<u8>, bytes: &[u8])
    ensures
        final(target)@ == old(target)@ + bytes@,
{
    let mut i: usize = 0;
    while i < bytes.len()
        invariant
            i <= bytes.len(),
            target@ == old(target)@ + bytes@.subrange(0, i as int),
        decreases bytes.len() - i,
    {
        target.push(bytes[i]);
        assert(target@ =~= old(target)@ + bytes@.subrange(0, i + 1));
        i += 1;
    }
    assert(bytes@.subrange(0, bytes.len() as int) =~= bytes@);
}

fn append_parent(target: &mut Vec<u8>, parent: Option<u128>)
    ensures
        final(target)@ == old(target)@ + parent_payload(parent),
{
    match parent {
        Some(id) => {
            target.push(1u8);
            let encoded = u128_to_le_bytes(id);
            append_bytes(target, encoded.as_slice());
            assert(target@ =~= old(target)@ + (seq![1u8] + spec_u128_to_le_bytes(id)));
        },
        None => {
            target.push(0u8);
            assert(target@ =~= old(target)@ + seq![0u8]);
        },
    }
}

impl Clone for Transaction {
    fn clone(&self) -> (copy: Transaction)
        ensures
            copy@ == self@,
    {
        Transaction {
            id: self.id,
            timestamp: self.timestamp,
            sender: self.sender,
            recipient: self.recipient,
            amount: self.amount,
            fee: self.fee,
            parent1: self.parent1,
            parent2: self.parent2,
            status: self.status,
            zk_proof: clone_opt_bytes(&self.zk_proof),
            signature: clone_opt_bytes(&self.signature),
            metadata: clone_bytes(&self.metadata),
        }
    }
}

impl Transaction {
    /// Creates a pending transaction with a fresh identifier, stamped with the
    /// current time.
    pub fn new(
        sender: PublicKey,
        recipient: PublicKey,
        amount: u64,
        fee: u64,
        parent1: Option<u128>,
        parent2: Option<u128>,
    ) -> (t: Transaction)
        ensures
            t@ == Transaction::spec_with_identity(
                t.id,
                t.timestamp,
                sender@,
                recipient@,
                amount,
                fee,
                parent1,
                parent2,
            ),
            crate::ambient::clock_reading(t.timestamp),
    {
        Transaction::with_identity(
            fresh_id(),
            now_millis(),
            sender,
            recipient,
            amount,
            fee,
            parent1,
            parent2,
        )
    }

    /// The pending, unsigned transaction with the given identifier and time.
    pub open spec fn spec_with_identity(
        id: u128,
        timestamp: u64,
        sender: Seq<u8>,
        recipient: Seq<u8>,
        amount: u64,
        fee: u64,
        parent1: Option<u128>,
        parent2: Option<u128>,
    ) -> TransactionView {
        TransactionView {
            id,
            timestamp,
            sender,
            recipient,
            amount,
            fee,
            parent1,
            parent2,
            status: TransactionStatus::Pending,
            zk_proof: None,
            signature: None,
            metadata: Seq::<u8>::empty(),
        }
    }

    /// Creates a pending transaction with a given identifier and timestamp.
    pub fn with_identity(
        id: u128,
        timestamp: u64,
        sender: PublicKey,
        recipient: PublicKey,
        amount: u64,
        fee: u64,
        parent1: Option<u128>,
        parent2: Option<u128>,
    ) -> (t: Transaction)
        ensures
            t@ == Transaction::spec_with_identity(
                id,
                timestamp,
                sender@,
                recipient@,
                amount,
                fee,
                parent1,
                parent2,
            ),
    {
        Transaction {
            id,
            timestamp,
            sender,
            recipient,
            amount,
            fee,
            parent1,
            parent2,
            status: TransactionStatus::Pending,
            zk_proof: None,
            signature: None,
            metadata: Vec::new(),
        }
    }

    /// The bytes that are hashed and signed.
    pub fn signing_bytes(&self) -> (payload: Vec<u8>)
        ensures
            payload@ == self@.signing_payload(),
    {
        let mut payload = u128_to_le_bytes(self.id);
        let timestamp = u64_to_le_bytes(self.timestamp);
        append_bytes(&mut payload, timestamp.as_slice());
        let sender = self.sender.to_bytes();
        append_bytes(&mut payload, sender.as_slice());
        let recipient = self.recipient.to_bytes();
        append_bytes(&mut payload, recipient.as_slice());
        let amount = u64_to_le_bytes(self.amount);
        append_bytes(&mut payload, amount.as_slice());
        let fee = u64_to_le_bytes(self.fee);
        append_bytes(&mut payload, fee.as_slice());
        append_parent(&mut payload, self.parent1);
        append_parent(&mut payload, self.parent2);
        append_bytes(&mut payload, self.metadata.as_slice());
        payload
    }

    /// SHA-256 of the signing payload. Status, signature and privacy proof do
    /// not enter the hash.
    pub fn hash(&self) -> (digest: Vec<u8>)
        ensures
            digest@ == sha256_digest(self@.signing_payload()),
            digest@.len() == 32,
    {
        let payload = self.signing_bytes();
        sha256(payload.as_slice())
    }

    /// Checks amount, fee and the two parties.
    pub fn validate_structure(&self) -> (result: Result<(), SDUPIError>)
        ensures
            result is Ok <==> self@.structure_ok(),
            result matches Err(e) ==> e matches SDUPIError::TransactionValidation(m) && m@
                == structure_error_text(self@),
    {
        if self.amount == 0 {
            return Err(
                SDUPIError::TransactionValidation(
                    String::from_str("Transaction amount cannot be zero"),
                ),
            );
        }
        if self.fee == 0 {
            return Err(
                SDUPIError::TransactionValidation(
                    String::from_str("Transaction fee cannot be zero"),
                ),
            );
        }
        if self.sender.same_key(&self.recipient) {
            return Err(
                SDUPIError::TransactionValidation(
                    String::from_str("Sender and recipient cannot be the same"),
                ),
            );
        }
        Ok(())
    }

    /// Whether the transaction is pending, signed and carries a proof.
    pub fn is_ready_for_validation(&self) -> (ready: bool)
        ensures
            ready == self@.ready(),
    {
        self.status == TransactionStatus::Pending && self.signature.is_some()
            && self.zk_proof.is_some()
    }

    /// Moves a pending transaction to validated; any other is left as it is.
    pub fn mark_validated(&mut self)
        ensures
            final(self)@ == old(self)@.stepped(TransactionStatus::Validated),
    {
        if self.status.can_step_to(TransactionStatus::Validated) {
            self.status = TransactionStatus::Validated;
        }
    }

    /// Moves a validated transaction to confirmed; any other is left as it is.
    pub fn mark_confirmed(&mut self)
        ensures
            final(self)@ == old(self)@.stepped(TransactionStatus::Confirmed),
    {
        if self.status.can_step_to(TransactionStatus::Confirmed) {
            self.status = TransactionStatus::Confirmed;
        }
    }

    /// Moves a pending transaction to rejected; any other is left as it is.
    pub fn mark_rejected(&mut self)
        ensures
            final(self)@ == old(self)@.stepped(TransactionStatus::Rejected),
    {
        if self.status.can_step_to(TransactionStatus::Rejected) {
            self.status = TransactionStatus::Rejected;
        }
    }

    /// Attaches a signature.
    pub fn set_signature(&mut self, signature: Vec<u8>)
        ensures
            final(self)@ == (TransactionView { signature: Some(signature@), ..old(self)@ }),
    {
        self.signature = Some(signature);
    }

    /// Attaches a privacy proof.
    pub fn set_zk_proof(&mut self, proof: Vec<u8>)
        ensures
            final(self)@ == (TransactionView { zk_proof: Some(proof@), ..old(self)@ }),
    {
        self.zk_proof = Some(proof);
    }
}

impl PartialEq for Transaction {
    /// Two transactions are the same when their identifiers are.
    fn eq(&self, other: &Transaction) -> (same: bool) {
        self.id == other.id
    }
}

impl Eq for Transaction {

}

impl vstd::std_specs::cmp::PartialEqSpecImpl for Transaction {
    open spec fn obeys_eq_spec() -> bool {
        true
    }

    open spec fn eq_spec(&self, other: &Transaction) -> bool {
        self.id == other.id
    }
}

/// Whatever the status, the signature and the privacy proof are, the signing
/// payload, and with it the hash, stays the same.
pub proof fn lemma_payload_ignores_status_and_proofs(a: TransactionView, b: TransactionView)
    requires
        a.id == b.id,
        a.timestamp == b.timestamp,
        a.sender == b.sender,
        a.recipient == b.recipient,
        a.amount == b.amount,
        a.fee == b.fee,
        a.parent1 == b.parent1,
        a.parent2 == b.parent2,
        a.metadata == b.metadata,
    ensures
        a.signing_payload() == b.signing_payload(),
{
}

} // verus!
