//! Rounds, the validation of transactions and batches, and measurements.

use vstd::prelude::*;
use crate::ambient::{clock_reading, now_millis};
use crate::consensus::conflict::{all_single, conflict_views, Conflict, ConflictView};
use crate::consensus::ConsensusAlgorithm;
use crate::crypto::{ed25519_accepts, sha256_digest, PublicKey};
use crate::dag::batch::{batch_views, BatchView, TransactionBatch};
use crate::transaction::{Transaction, TransactionView};
use crate::zk_starks::{proof_accepted, ZKVerifier};

verus! {

/// The phases of a round, in the order in which they are run.
#[derive(Debug, Clone, Copy, PartialEq, Eq, Structural)]
pub enum ConsensusPhase {
    /// The pending queue is cut into batches.
    PrePrepare,
    /// The batches are dealt to the workers.
    Prepare,
    /// The workers' results are taken in.
    Commit,
    /// Validated transactions are confirmed, conflicts resolved, and the
    /// round is measured and closed.
    Finalize,
}

impl ConsensusPhase {
    /// The phase that follows, if any.
    pub open spec fn spec_next(self) -> Option<ConsensusPhase> {
        match self {
            ConsensusPhase::PrePrepare => Some(ConsensusPhase::Prepare),
            ConsensusPhase::Prepare => Some(ConsensusPhase::Commit),
            ConsensusPhase::Commit => Some(ConsensusPhase::Finalize),
            ConsensusPhase::Finalize => None,
        }
    }

    /// The phase that follows, if any.
    pub fn next(self) -> (following: Option<ConsensusPhase>)
        ensures
            following == self.spec_next(),
    {
        match self {
            ConsensusPhase::PrePrepare => Some(ConsensusPhase::Prepare),
            ConsensusPhase::Prepare => Some(ConsensusPhase::Commit),
            ConsensusPhase::Commit => Some(ConsensusPhase::Finalize),
            ConsensusPhase::Finalize => None,
        }
    }
}

/// How the validation of a batch ended.
#[derive(Debug, Clone, Copy, PartialEq, Eq, Structural)]
pub enum ValidationStatus {
    /// Every transaction of the batch was validated.
    Success,
    /// Some transactions were validated and some were not.
    Partial,
    /// No transaction of the batch was validated.
    Failed,
}

/// Measurements of a round. Times are in milliseconds.
#[derive(Debug, Clone, Copy, PartialEq, Eq, Structural)]
pub struct RoundMetrics {
    pub transactions_processed: usize,
    pub processing_time: u64,
    /// Transactions per second.
    pub tps_achieved: u64,
    pub average_latency: u64,
    pub conflicts_resolved: usize,
}

impl Default for RoundMetrics {
    fn default() -> (m: RoundMetrics)
        ensures
            m == (RoundMetrics {
                transactions_processed: 0,
                processing_time: 0,
                tps_achieved: 0,
                average_latency: 0,
                conflicts_resolved: 0,
            }),
    {
        RoundMetrics {
            transactions_processed: 0,
            processing_time: 0,
            tps_achieved: 0,
            average_latency: 0,
            conflicts_resolved: 0,
        }
    }
}

/// Measurements of the engine. Times are in milliseconds, the success rate
/// is in thousandths.
#[derive(Debug, Clone, Copy, PartialEq, Eq, Structural)]
pub struct PerformanceMetrics {
    pub total_tps: u64,
    pub average_latency: u64,
    pub peak_tps: u64,
    pub total_transactions: u64,
    pub success_rate: u64,
    pub round_completion_time: u64,
}

impl Default for PerformanceMetrics {
    fn default() -> (m: PerformanceMetrics)
        ensures
            m == (PerformanceMetrics {
                total_tps: 0,
                average_latency: 0,
                peak_tps: 0,
                total_transactions: 0,
                success_rate: 1000,
                round_completion_time: 0,
            }),
    {
        PerformanceMetrics {
            total_tps: 0,
            average_latency: 0,
            peak_tps: 0,
            total_transactions: 0,
            success_rate: 1000,
            round_completion_time: 0,
        }
    }
}

/// Transactions per second for a count of transactions processed in a
/// number of milliseconds: 0 when no time has passed, and never more than
/// the largest 64-bit number.
pub open spec fn throughput(count: nat, millis: u64) -> nat {
    if millis == 0 {
        0
    } else if count * 1000 / (millis as nat) > u64::MAX {
        u64::MAX as nat
    } else {
        count * 1000 / (millis as nat)
    }
}

/// Computes transactions per second.
pub fn calculate_tps(count: usize, millis: u64) -> (tps: u64)
    ensures
        tps == throughput(count as nat, millis),
{
    if millis == 0 {
        return 0;
    }
    let scaled: u128 = count as u128 * 1000;
    let rate: u128 = scaled / millis as u128;
    if rate > u64::MAX as u128 {
        u64::MAX
    } else {
        rate as u64
    }
}

impl PerformanceMetrics {
    /// The measurements of an engine that has closed no round.
    pub open spec fn fresh() -> PerformanceMetrics {
        PerformanceMetrics {
            total_tps: 0,
            average_latency: 0,
            peak_tps: 0,
            total_transactions: 0,
            success_rate: 1000,
            round_completion_time: 0,
        }
    }

    /// The measurements after a round that processed `count` transactions in
    /// `millis` milliseconds.
    pub open spec fn after_round(self, count: nat, millis: u64) -> PerformanceMetrics {
        let tps = throughput(count, millis) as u64;
        PerformanceMetrics {
            total_tps: tps,
            round_completion_time: millis,
            peak_tps: if tps > self.peak_tps {
                tps
            } else {
                self.peak_tps
            },
            ..self
        }
    }

    /// Records a round.
    pub fn record_round(&mut self, count: usize, millis: u64)
        ensures
            *final(self) == old(self).after_round(count as nat, millis),
    {
        let tps = calculate_tps(count, millis);
        self.total_tps = tps;
        self.round_completion_time = millis;
        if tps > self.peak_tps {
            self.peak_tps = tps;
        }
    }
}

/// What a worker reports after validating a batch.
#[derive(Debug)]
pub struct ValidationResult {
    pub batch_id: u128,
    pub status: ValidationStatus,
    /// The validated transactions in the order of the batch.
    pub validated_transactions: Vec<u128>,
    /// Duration of the validation in milliseconds.
    pub validation_time: u64,
    pub worker_id: usize,
}

/// A round of consensus.
#[derive(Debug)]
pub struct AdvancedConsensusRound {
    pub round_number: u64,
    /// Start of the round's window in milliseconds since the Unix epoch.
    pub start_time: u64,
    /// End of the window. The end itself lies outside the window.
    pub end_time: u64,
    pub phase: ConsensusPhase,
    /// The validators that took part.
    pub validators: Vec<PublicKey>,
    /// The transactions validated in this round.
    pub validated_transactions: Vec<u128>,
    /// The conflicts attached to this round.
    pub conflicts: Vec<Conflict>,
    pub processed_batches: Vec<TransactionBatch>,
    pub metrics: RoundMetrics,
}

/// The mathematical value of a round.
pub ghost struct RoundView {
    pub round_number: u64,
    pub start_time: u64,
    pub end_time: u64,
    pub phase: ConsensusPhase,
    pub validators: Seq<Seq<u8>>,
    pub validated_transactions: Seq<u128>,
    pub conflicts: Seq<ConflictView>,
    /// The batches processed in the round, in the order of their processing.
    pub processed_batches: Seq<BatchView>,
    pub metrics: RoundMetrics,
}

impl View for AdvancedConsensusRound {
    type V = RoundView;

    open spec fn view(&self) -> RoundView {
        RoundView {
            round_number: self.round_number,
            start_time: self.start_time,
            end_time: self.end_time,
            phase: self.phase,
            validators: Seq::new(self.validators@.len(), |i: int| self.validators@[i]@),
            validated_transactions: self.validated_transactions@,
            conflicts: conflict_views(self.conflicts@),
            processed_batches: batch_views(self.processed_batches@),
            metrics: self.metrics,
        }
    }
}

impl RoundView {
    /// The round that starts at `now` and lasts `duration` milliseconds, with
    /// the conflicts that it takes over.
    pub open spec fn opening(
        round_number: u64,
        now: u64,
        duration: u64,
        conflicts: Seq<ConflictView>,
    ) -> RoundView {
        RoundView {
            round_number,
            start_time: now,
            end_time: (now + duration) as u64,
            phase: ConsensusPhase::PrePrepare,
            validators: Seq::<Seq<u8>>::empty(),
            validated_transactions: Seq::<u128>::empty(),
            conflicts,
            processed_batches: Seq::<BatchView>::empty(),
            metrics: RoundMetrics {
                transactions_processed: 0,
                processing_time: 0,
                tps_achieved: 0,
                average_latency: 0,
                conflicts_resolved: 0,
            },
        }
    }

    /// Whether `now` lies in the round's window.
    pub open spec fn running_at(self, now: u64) -> bool {
        now < self.end_time
    }
}

/// The unresolved conflicts among the first `n` of a list, in order.
pub open spec fn unresolved_among(conflicts: Seq<ConflictView>, n: int) -> Seq<ConflictView>
    decreases n,
{
    if n <= 0 {
        Seq::<ConflictView>::empty()
    } else if conflicts[n - 1].resolved {
        unresolved_among(conflicts, n - 1)
    } else {
        unresolved_among(conflicts, n - 1).push(conflicts[n - 1])
    }
}

/// The unresolved conflicts of a list, in order.
pub open spec fn unresolved(conflicts: Seq<ConflictView>) -> Seq<ConflictView> {
    unresolved_among(conflicts, conflicts.len() as int)
}

/// Every unresolved conflict of a list is among its unresolved conflicts,
/// and nothing else is.
pub proof fn lemma_unresolved_complete(conflicts: Seq<ConflictView>, n: int)
    requires
        0 <= n <= conflicts.len(),
    ensures
        forall|k: int|
            0 <= k < n && !(#[trigger] conflicts[k]).resolved ==> unresolved_among(
                conflicts,
                n,
            ).contains(conflicts[k]),
        forall|c: ConflictView| #[trigger]
            unresolved_among(conflicts, n).contains(c) ==> !c.resolved && conflicts.contains(c),
    decreases n,
{
    if n > 0 {
        lemma_unresolved_complete(conflicts, n - 1);
        let rest = unresolved_among(conflicts, n - 1);
        let all = unresolved_among(conflicts, n);
        assert forall|k: int| 0 <= k < n && !(#[trigger] conflicts[k]).resolved implies all.contains(
            conflicts[k],
        ) by {
            if k < n - 1 {
                assert(rest.contains(conflicts[k]));
                let m = choose|m: int| 0 <= m < rest.len() && rest[m] == conflicts[k];
                assert(all[m] == conflicts[k]);
            } else {
                assert(all[all.len() - 1] == conflicts[k]);
            }
        }
        assert forall|c: ConflictView| #[trigger] all.contains(c) implies !c.resolved
            && conflicts.contains(c) by {
            let m = choose|m: int| 0 <= m < all.len() && all[m] == c;
            if m < rest.len() {
                assert(rest[m] == c);
                assert(rest.contains(c));
            } else {
                assert(c == conflicts[n - 1]);
            }
        }
    }
}

/// The unresolved conflicts of conflicts that each name one transaction
/// only do so too.
pub proof fn lemma_unresolved_single(conflicts: Seq<ConflictView>)
    requires
        all_single(conflicts),
    ensures
        all_single(unresolved(conflicts)),
{
    lemma_unresolved_complete(conflicts, conflicts.len() as int);
    let open = unresolved(conflicts);
    assert forall|k: int| 0 <= k < open.len() implies (#[trigger] open[k]).single() by {
        assert(open.contains(open[k]));
        let m = choose|m: int| 0 <= m < conflicts.len() && conflicts[m] == open[k];
        assert(conflicts[m].single());
    }
}

/// Whether a transaction is a candidate of an unresolved conflict among the
/// first `n` of a list.
pub open spec fn disputed(conflicts: Seq<ConflictView>, id: u128) -> bool {
    exists|k: int|
        0 <= k < conflicts.len() && !(#[trigger] conflicts[k]).resolved
            && conflicts[k].transaction_ids.contains(id)
}

/// A checker of privacy proofs. A proof that is not accepted leaves its
/// transaction unvalidated; it is no error.
pub trait PrivacyProofVerifier {
    /// Whether the checker accepts a proof for a transaction.
    spec fn accepts(&self, transaction: TransactionView, proof: Seq<u8>) -> bool;

    /// Checks a proof for a transaction.
    fn verify(&self, transaction: &Transaction, proof: &[u8]) -> (ok: bool)
        ensures
            ok == self.accepts(transaction@, proof@),
    ;
}

/// The checker that accepts every proof.
#[derive(Debug, Clone, Copy)]
pub struct AcceptAllProofs;

impl PrivacyProofVerifier for AcceptAllProofs {
    open spec fn accepts(&self, transaction: TransactionView, proof: Seq<u8>) -> bool {
        true
    }

    fn verify(&self, _transaction: &Transaction, _proof: &[u8]) -> (ok: bool) {
        true
    }
}

/// The checker that accepts no proof.
#[derive(Debug, Clone, Copy)]
pub struct RefuseAllProofs;

impl PrivacyProofVerifier for RefuseAllProofs {
    open spec fn accepts(&self, transaction: TransactionView, proof: Seq<u8>) -> bool {
        false
    }

    fn verify(&self, _transaction: &Transaction, _proof: &[u8]) -> (ok: bool) {
        false
    }
}

impl PrivacyProofVerifier for ZKVerifier {
    /// A proof is accepted when the stand-in check passes for the proof,
    /// the transaction's hash as public input, and the verifier's key.
    open spec fn accepts(&self, transaction: TransactionView, proof: Seq<u8>) -> bool {
        proof_accepted(proof, sha256_digest(transaction.signing_payload()), self.key_view())
    }

    fn verify(&self, transaction: &Transaction, proof: &[u8]) -> (ok: bool) {
        let hash = transaction.hash();
        self.check_proof_data(proof, hash.as_slice())
    }
}

/// Whether a transaction carries a signature of its sender over its hash.
pub open spec fn signature_valid(t: TransactionView) -> bool {
    t.signature matches Some(signature) && ed25519_accepts(
        t.sender,
        sha256_digest(t.signing_payload()),
        signature,
    )
}

/// Whether a transaction passes validation: its structure is valid, it is
/// pending, signed and proved, the signature is its sender's, and the
/// checker accepts the proof.
pub open spec fn validatable<P: PrivacyProofVerifier>(verifier: &P, t: TransactionView) -> bool {
    &&& t.structure_ok()
    &&& t.ready()
    &&& signature_valid(t)
    &&& (t.zk_proof matches Some(proof) && verifier.accepts(t, proof))
}

/// Validates one transaction.
pub fn check_transaction<P: PrivacyProofVerifier>(verifier: &P, transaction: &Transaction) -> (ok:
    bool)
    ensures
        ok == validatable(verifier, transaction@),
{
    if transaction.validate_structure().is_err() {
        return false;
    }
    if !transaction.is_ready_for_validation() {
        return false;
    }
    let hash = transaction.hash();
    match &transaction.signature {
        Some(signature) => {
            if transaction.sender.verify(hash.as_slice(), signature.as_slice()).is_err() {
                return false;
            }
        },
        None => {
            return false;
        },
    }
    match &transaction.zk_proof {
        Some(proof) => verifier.verify(transaction, proof.as_slice()),
        None => false,
    }
}

/// The identifiers of the transactions among the first `n` that pass
/// validation, in order.
pub open spec fn validated_among<P: PrivacyProofVerifier>(
    verifier: &P,
    transactions: Seq<TransactionView>,
    n: int,
) -> Seq<u128>
    decreases n,
{
    if n <= 0 {
        Seq::<u128>::empty()
    } else if validatable(verifier, transactions[n - 1]) {
        validated_among(verifier, transactions, n - 1).push(transactions[n - 1].id)
    } else {
        validated_among(verifier, transactions, n - 1)
    }
}

/// No more transactions pass validation than there are.
pub proof fn lemma_validated_bound<P: PrivacyProofVerifier>(
    verifier: &P,
    transactions: Seq<TransactionView>,
    n: int,
)
    requires
        0 <= n,
    ensures
        validated_among(verifier, transactions, n).len() <= n,
    decreases n,
{
    if n > 0 {
        lemma_validated_bound(verifier, transactions, n - 1);
    }
}

/// The status of a batch of which `validated` of `total` transactions were
/// validated.
pub open spec fn batch_status(validated: nat, total: nat) -> ValidationStatus {
    if validated == total {
        ValidationStatus::Success
    } else if validated == 0 {
        ValidationStatus::Failed
    } else {
        ValidationStatus::Partial
    }
}

/// A worker that validates batches.
#[derive(Debug, Clone, Copy)]
pub struct ValidationWorker {
    pub worker_id: usize,
}

impl ValidationWorker {
    /// Validates the transactions of a batch one by one. A transaction that
    /// does not pass lowers the status of the batch and leaves the others
    /// untouched.
    pub fn check_batch<P: PrivacyProofVerifier>(&self, batch: &TransactionBatch, verifier: &P) -> (outcome:
        (Vec<u128>, ValidationStatus))
        ensures
            outcome.0@ == validated_among(
                verifier,
                batch@.transactions,
                batch@.transactions.len() as int,
            ),
            outcome.1 == batch_status(outcome.0@.len(), batch@.transactions.len()),
    {
        let mut validated: Vec<u128> = Vec::new();
        let mut i: usize = 0;
        while i < batch.transactions.len()
            invariant
                i <= batch.transactions@.len(),
                batch@.transactions.len() == batch.transactions@.len(),
                validated@ == validated_among(verifier, batch@.transactions, i as int),
                validated@.len() <= i,
            decreases batch.transactions@.len() - i,
        {
            assert(batch@.transactions[i as int] == batch.transactions@[i as int]@);
            if check_transaction(verifier, &batch.transactions[i]) {
                validated.push(batch.transactions[i].id);
            }
            i += 1;
        }
        let status = if validated.len() == batch.transactions.len() {
            ValidationStatus::Success
        } else if validated.len() == 0 {
            ValidationStatus::Failed
        } else {
            ValidationStatus::Partial
        };
        (validated, status)
    }

    /// Validates a batch and reports the result with the time it took.
    pub fn validate_batch<P: PrivacyProofVerifier>(&self, batch: &TransactionBatch, verifier: &P) -> (result:
        ValidationResult)
        ensures
            result.batch_id == batch.batch_id,
            result.worker_id == self.worker_id,
            result.validated_transactions@ == validated_among(
                verifier,
                batch@.transactions,
                batch@.transactions.len() as int,
            ),
            result.status == batch_status(
                result.validated_transactions@.len(),
                batch@.transactions.len(),
            ),
    {
        let started = now_millis();
        let (validated_transactions, status) = self.check_batch(batch, verifier);
        let ended = now_millis();
        let validation_time = if ended >= started {
            ended - started
        } else {
            0
        };
        ValidationResult {
            batch_id: batch.batch_id,
            status,
            validated_transactions,
            validation_time,
            worker_id: self.worker_id,
        }
    }
}

/// What is known of a past round, for the choice of an algorithm.
#[derive(Debug, Clone, Copy, PartialEq, Eq, Structural)]
pub struct ConsensusData {
    pub round_number: u64,
    pub validator_count: usize,
    pub transaction_count: usize,
    /// Length of the round in milliseconds.
    pub round_duration: u64,
    pub tps_achieved: u64,
    pub conflicts_count: usize,
}

/// The model behind the choice of an algorithm.
#[derive(Debug)]
pub struct AIModel {
    pub model_type: String,
    /// When the model last changed, in milliseconds since the Unix epoch.
    pub last_updated: u64,
}

/// Chooses a consensus algorithm by the accuracy of its model.
#[derive(Debug)]
pub struct AIConsensusPredictor {
    pub model: AIModel,
    pub training_data: Vec<ConsensusData>,
    /// Accuracy of the model in thousandths.
    pub accuracy: u64,
}

impl AIConsensusPredictor {
    /// The algorithm for an accuracy in thousandths.
    pub open spec fn choice(accuracy: u64) -> ConsensusAlgorithm {
        if accuracy > 900 {
            ConsensusAlgorithm::HotStuff
        } else if accuracy > 800 {
            ConsensusAlgorithm::BFT
        } else {
            ConsensusAlgorithm::Hybrid
        }
    }

    /// A predictor whose model was made at time `now`.
    pub fn new_at(now: u64) -> (predictor: AIConsensusPredictor)
        ensures
            predictor.model.model_type@ == "neural_network"@,
            predictor.model.last_updated == now,
            predictor.training_data@.len() == 0,
            predictor.accuracy == 850,
    {
        AIConsensusPredictor {
            model: AIModel { model_type: String::from_str("neural_network"), last_updated: now },
            training_data: Vec::new(),
            accuracy: 850,
        }
    }

    /// A predictor whose model is made now.
    pub fn new() -> (predictor: AIConsensusPredictor)
        ensures
            predictor.model.model_type@ == "neural_network"@,
            predictor.training_data@.len() == 0,
            predictor.accuracy == 850,
            clock_reading(predictor.model.last_updated),
    {
        AIConsensusPredictor::new_at(now_millis())
    }

    /// Chooses the algorithm: HotStuff above an accuracy of 0.9, BFT above
    /// 0.8, the hybrid otherwise.
    pub fn predict_optimal_consensus(&self) -> (algorithm: ConsensusAlgorithm)
        ensures
            algorithm == AIConsensusPredictor::choice(self.accuracy),
    {
        if self.accuracy > 900 {
            ConsensusAlgorithm::HotStuff
        } else if self.accuracy > 800 {
            ConsensusAlgorithm::BFT
        } else {
            ConsensusAlgorithm::Hybrid
        }
    }
}

/// Totals of the engine.
#[derive(Debug, Clone, Copy, PartialEq, Eq, Structural)]
pub struct ConsensusStats {
    pub total_validators: usize,
    pub total_stake: u64,
    pub current_round: Option<u64>,
    pub total_rounds: u64,
    pub active_validators: usize,
}

/// Outcome of a run of the consensus algorithm.
#[derive(Debug, Clone, Copy, PartialEq, Eq, Structural)]
pub struct ConsensusResult {
    pub success: bool,
    pub round_number: u64,
    pub transactions_processed: usize,
    /// Duration of the run in milliseconds.
    pub execution_time: u64,
    /// Transactions per second.
    pub tps_achieved: u64,
}

} // verus!
