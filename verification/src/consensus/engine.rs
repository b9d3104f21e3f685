//! The consensus engine: it owns the ledger, the validator registry and the
//! one round that may be open, and drives the round through its phases.

use vstd::prelude::*;
use crate::ambient::{clock_reading, now_millis};
use crate::consensus::conflict::{all_single, conflict_views, Conflict, ConflictView};
use crate::consensus::registry::{
    capped_total, lists_validators, order_with, stakes_in_order, ValidatorRegistry,
    ValidatorStake,
};
use crate::consensus::resolver::{
    continues, is_pass, newly_resolved, pass_outcome, resolve_all, same_conflicts,
    settled_candidate, votes_since, VotingStrategy,
};
use crate::consensus::round::{
    batch_status, calculate_tps, check_transaction, disputed, lemma_unresolved_single,
    throughput, unresolved, unresolved_among,
    validatable, validated_among, AdvancedConsensusRound, ConsensusPhase, ConsensusStats,
    PerformanceMetrics, PrivacyProofVerifier, RoundMetrics, RoundView, ValidationResult,
    ValidationWorker,
};
use crate::dag::batch::{batch_views, cut_pending, dispatch_plan, worker_of, BatchView};
use crate::consensus::AdvancedConsensusConfig;
use crate::crypto::PublicKey;
use crate::dag::batch::TransactionBatch;
use crate::dag::ledger::AdvancedDAGLedger;
use crate::dag::model::{Admission, GraphView, LedgerView};
use crate::dag::priority::priority_score;
use crate::error::SDUPIError;
use crate::transaction::{Transaction, TransactionStatus};

verus! {

/// The engine.
#[derive(Debug)]
pub struct ConsensusEngine {
    dag_ledger: AdvancedDAGLedger,
    validators: ValidatorRegistry,
    current_round: Option<AdvancedConsensusRound>,
    config: AdvancedConsensusConfig,
    round_counter: u64,
    backlog: Vec<Conflict>,
    transaction_batches: Vec<TransactionBatch>,
    performance_metrics: PerformanceMetrics,
}

/// The mathematical value of an engine.
pub ghost struct EngineView {
    pub ledger: LedgerView,
    pub validators: Map<Seq<u8>, ValidatorStake>,
    /// The public keys of the validators in the order in which they first
    /// registered.
    pub validator_order: Seq<Seq<u8>>,
    /// The open round, if any.
    pub round: Option<RoundView>,
    /// Number of rounds started so far.
    pub round_counter: u64,
    /// Unresolved conflicts that wait for the next round.
    pub backlog: Seq<ConflictView>,
    /// The batches that wait to be processed.
    pub batches: Seq<BatchView>,
    pub metrics: PerformanceMetrics,
    pub config: AdvancedConsensusConfig,
}

impl View for ConsensusEngine {
    type V = EngineView;

    closed spec fn view(&self) -> EngineView {
        EngineView {
            ledger: self.dag_ledger@,
            validators: self.validators@,
            validator_order: self.validators.order(),
            round: match self.current_round {
                Some(round) => Some(round@),
                None => None,
            },
            round_counter: self.round_counter,
            backlog: conflict_views(self.backlog@),
            batches: batch_views(self.transaction_batches@),
            metrics: self.performance_metrics,
            config: self.config,
        }
    }
}

impl EngineView {
    /// The entries of the validators in the order of their registration.
    pub open spec fn stakes(self) -> Seq<ValidatorStake> {
        stakes_in_order(self.validators, self.validator_order)
    }

    /// Sum of the registered stakes, held at the largest 64-bit number.
    pub open spec fn total_stake(self) -> int {
        capped_total(self.stakes())
    }

    /// Whether a round is open and `now` lies in its window.
    pub open spec fn round_active(self, now: u64) -> bool {
        self.round matches Some(round) && round.running_at(now)
    }

    /// The conflicts that a round starting now takes over: the unresolved
    /// conflicts of the round that was open, then the backlog.
    pub open spec fn carried_conflicts(self) -> Seq<ConflictView> {
        match self.round {
            Some(round) => unresolved(round.conflicts) + self.backlog,
            None => self.backlog,
        }
    }

    /// Every conflict that is attached to the open round or waits in the
    /// backlog.
    pub open spec fn open_conflicts(self) -> Seq<ConflictView> {
        match self.round {
            Some(round) => round.conflicts + self.backlog,
            None => self.backlog,
        }
    }
}

/// What a pass of validation works on: the graph, the registry and the list
/// of transactions validated in the round.
pub ghost struct ValidationState {
    pub graph: GraphView,
    pub validators: Map<Seq<u8>, ValidatorStake>,
    pub validated: Seq<u128>,
}

/// Whether a transaction is validated when its turn comes: it is stored, it
/// passes validation, and it is no candidate of an unresolved conflict.
pub open spec fn qualifies<P: PrivacyProofVerifier>(
    verifier: &P,
    graph: GraphView,
    conflicts: Seq<ConflictView>,
    id: u128,
) -> bool {
    graph.contains(id) && validatable(verifier, graph.node(id).transaction) && !disputed(
        conflicts,
        id,
    )
}

/// The state after one transaction has had its turn at time `now`: one that
/// qualifies is marked validated in the graph, its sender is credited with a
/// validation, and it joins the validated of the round; any other leaves the
/// state as it is.
pub open spec fn validation_step<P: PrivacyProofVerifier>(
    verifier: &P,
    state: ValidationState,
    conflicts: Seq<ConflictView>,
    id: u128,
    now: u64,
) -> ValidationState {
    if qualifies(verifier, state.graph, conflicts, id) {
        ValidationState {
            graph: state.graph.after_validate(id, now),
            validators: ValidatorRegistry::credited(
                state.validators,
                state.graph.node(id).transaction.sender,
                now,
            ),
            validated: state.validated.push(id),
        }
    } else {
        state
    }
}

/// The state after the first `n` of a list of transactions have had their
/// turns, in order.
pub open spec fn validation_pass<P: PrivacyProofVerifier>(
    verifier: &P,
    start: ValidationState,
    conflicts: Seq<ConflictView>,
    ids: Seq<u128>,
    now: u64,
    n: int,
) -> ValidationState
    decreases n,
{
    if n <= 0 {
        start
    } else {
        validation_step(
            verifier,
            validation_pass(verifier, start, conflicts, ids, now, n - 1),
            conflicts,
            ids[n - 1],
            now,
        )
    }
}

/// The node at place `i` after a pass of validation over transactions that
/// are all different: validated and stamped when its transaction is among
/// them and qualifies, and unchanged otherwise.
pub open spec fn node_after_pass<P: PrivacyProofVerifier>(
    verifier: &P,
    graph: GraphView,
    conflicts: Seq<ConflictView>,
    ids: Seq<u128>,
    now: u64,
    i: int,
) -> crate::dag::model::NodeView {
    if ids.contains(graph.id_at(i)) && qualifies(verifier, graph, conflicts, graph.id_at(i)) {
        graph.nodes[i].moved(TransactionStatus::Validated, Some(now))
    } else {
        graph.nodes[i]
    }
}

/// What a pass of validation over transactions that are all different does:
/// exactly those of them that qualify in the graph as it was before the pass
/// are validated, stamped and listed; every other node stays as it was.
pub proof fn lemma_validation_pass<P: PrivacyProofVerifier>(
    verifier: &P,
    start: ValidationState,
    conflicts: Seq<ConflictView>,
    ids: Seq<u128>,
    now: u64,
    n: int,
)
    requires
        start.graph.ids_unique(),
        ids.no_duplicates(),
        0 <= n <= ids.len(),
    ensures
        ({
            let end = validation_pass(verifier, start, conflicts, ids, now, n);
            let taken = ids.subrange(0, n);
            &&& end.graph.ids_unique()
            &&& end.graph.nodes.len() == start.graph.nodes.len()
            &&& forall|i: int|
                0 <= i < start.graph.nodes.len() ==> #[trigger] end.graph.nodes[i]
                    == node_after_pass(verifier, start.graph, conflicts, taken, now, i)
            &&& forall|x: u128| #[trigger]
                end.validated.contains(x) <==> start.validated.contains(x) || (taken.contains(x)
                    && qualifies(verifier, start.graph, conflicts, x))
        }),
    decreases n,
{
    let end = validation_pass(verifier, start, conflicts, ids, now, n);
    let taken = ids.subrange(0, n);
    if n == 0 {
        assert(taken =~= Seq::<u128>::empty());
    } else {
        lemma_validation_pass(verifier, start, conflicts, ids, now, n - 1);
        let before = validation_pass(verifier, start, conflicts, ids, now, n - 1);
        let earlier = ids.subrange(0, n - 1);
        let id = ids[n - 1];
        assert forall|x: u128| taken.contains(x) <==> earlier.contains(x) || x == id by {
            if taken.contains(x) {
                let m = choose|m: int| 0 <= m < taken.len() && taken[m] == x;
                if m < n - 1 {
                    assert(earlier[m] == x);
                }
            }
            if earlier.contains(x) {
                let m = choose|m: int| 0 <= m < earlier.len() && earlier[m] == x;
                assert(taken[m] == x);
            }
            assert(taken[n - 1] == id);
        }
        // the transaction whose turn it is has not been taken before
        if earlier.contains(id) {
            let m = choose|m: int| 0 <= m < earlier.len() && earlier[m] == id;
            assert(ids[m] == ids[n - 1]);
            assert(false);
        }
        assert forall|i: int| 0 <= i < start.graph.nodes.len() implies before.graph.id_at(i)
            == start.graph.id_at(i) by {
            assert(before.graph.nodes[i] == node_after_pass(
                verifier,
                start.graph,
                conflicts,
                earlier,
                now,
                i,
            ));
        }
        // it qualifies now exactly when it qualified before the pass
        assert(before.graph.contains(id) == start.graph.contains(id)) by {
            if before.graph.contains(id) {
                before.graph.lemma_contains(id);
                assert(start.graph.id_at(before.graph.index_of(id)) == id);
            }
            if start.graph.contains(id) {
                start.graph.lemma_contains(id);
                assert(before.graph.id_at(start.graph.index_of(id)) == id);
            }
        }
        if start.graph.contains(id) {
            start.graph.lemma_contains(id);
            let at = start.graph.index_of(id);
            assert(before.graph.id_at(at) == id);
            before.graph.lemma_index(at);
            assert(before.graph.nodes[at] == node_after_pass(
                verifier,
                start.graph,
                conflicts,
                earlier,
                now,
                at,
            ));
            assert(before.graph.node(id) == start.graph.node(id));
        }
        assert(qualifies(verifier, before.graph, conflicts, id) == qualifies(
            verifier,
            start.graph,
            conflicts,
            id,
        ));
        if qualifies(verifier, start.graph, conflicts, id) {
            let at = start.graph.index_of(id);
            before.graph.lemma_moved_lookup(at, TransactionStatus::Validated, Some(now), id);
            assert(end.graph == before.graph.moved(at, TransactionStatus::Validated, Some(now)));
            assert forall|i: int| 0 <= i < start.graph.nodes.len() implies #[trigger] end.graph.nodes[i]
                == node_after_pass(verifier, start.graph, conflicts, taken, now, i) by {
                start.graph.lemma_index(i);
                assert(before.graph.nodes[i] == node_after_pass(
                    verifier,
                    start.graph,
                    conflicts,
                    earlier,
                    now,
                    i,
                ));
            }
            assert forall|x: u128| #[trigger]
                end.validated.contains(x) <==> start.validated.contains(x) || (taken.contains(x)
                    && qualifies(verifier, start.graph, conflicts, x)) by {
                if end.validated.contains(x) {
                    let m = choose|m: int| 0 <= m < end.validated.len() && end.validated[m] == x;
                    if m < before.validated.len() {
                        assert(before.validated[m] == x);
                        assert(before.validated.contains(x));
                    }
                }
                if before.validated.contains(x) {
                    let m = choose|m: int|
                        0 <= m < before.validated.len() && before.validated[m] == x;
                    assert(end.validated[m] == x);
                }
                assert(end.validated[before.validated.len() as int] == id);
            }
        } else {
            assert(end == before);
            assert forall|i: int| 0 <= i < start.graph.nodes.len() implies #[trigger] end.graph.nodes[i]
                == node_after_pass(verifier, start.graph, conflicts, taken, now, i) by {
                start.graph.lemma_index(i);
                assert(before.graph.nodes[i] == node_after_pass(
                    verifier,
                    start.graph,
                    conflicts,
                    earlier,
                    now,
                    i,
                ));
            }
        }
    }
}

/// The transactions that the first `n` results list as validated, in order.
pub open spec fn listed(results: Seq<ValidationResult>, n: int) -> Seq<u128>
    decreases n,
{
    if n <= 0 {
        Seq::<u128>::empty()
    } else {
        listed(results, n - 1) + results[n - 1].validated_transactions@
    }
}

/// The transactions of the first `n` batches that pass validation, batch
/// after batch, each batch in its order.
pub open spec fn validated_in<P: PrivacyProofVerifier>(
    verifier: &P,
    batches: Seq<BatchView>,
    n: int,
) -> Seq<u128>
    decreases n,
{
    if n <= 0 {
        Seq::<u128>::empty()
    } else {
        validated_in(verifier, batches, n - 1) + validated_among(
            verifier,
            batches[n - 1].transactions,
            batches[n - 1].transactions.len() as int,
        )
    }
}

/// Whether result `k` lists the transactions of batch `k` that pass
/// validation, for every batch.
pub open spec fn results_of<P: PrivacyProofVerifier>(
    verifier: &P,
    batches: Seq<BatchView>,
    results: Seq<ValidationResult>,
) -> bool {
    &&& results.len() == batches.len()
    &&& forall|k: int|
        0 <= k < results.len() ==> (#[trigger] results[k]).batch_id == batches[k].batch_id
            && results[k].validated_transactions@ == validated_among(
            verifier,
            batches[k].transactions,
            batches[k].transactions.len() as int,
        )
}

/// The results of the workers list, together, the transactions of the
/// batches that pass validation.
pub proof fn lemma_results_listed<P: PrivacyProofVerifier>(
    verifier: &P,
    batches: Seq<BatchView>,
    results: Seq<ValidationResult>,
    n: int,
)
    requires
        results_of(verifier, batches, results),
        0 <= n <= results.len(),
    ensures
        listed(results, n) == validated_in(verifier, batches, n),
    decreases n,
{
    if n > 0 {
        lemma_results_listed(verifier, batches, results, n - 1);
        assert(results[n - 1].validated_transactions@ == validated_among(
            verifier,
            batches[n - 1].transactions,
            batches[n - 1].transactions.len() as int,
        ));
    }
}

/// The state after a transaction that a worker has validated is taken in at
/// time `now`: when it is stored, still pending and no candidate of an
/// unresolved conflict, it is marked validated, its sender is credited, and
/// it joins the validated of the round; otherwise the state stays as it is.
pub open spec fn commit_step(
    state: ValidationState,
    conflicts: Seq<ConflictView>,
    id: u128,
    now: u64,
) -> ValidationState {
    if state.graph.contains(id) && state.graph.status_of(id) == TransactionStatus::Pending
        && !disputed(conflicts, id) {
        ValidationState {
            graph: state.graph.after_validate(id, now),
            validators: ValidatorRegistry::credited(
                state.validators,
                state.graph.node(id).transaction.sender,
                now,
            ),
            validated: state.validated.push(id),
        }
    } else {
        state
    }
}

/// The state after the first `n` of a list of validated transactions are
/// taken in, in order.
pub open spec fn commit_pass(
    start: ValidationState,
    conflicts: Seq<ConflictView>,
    ids: Seq<u128>,
    now: u64,
    n: int,
) -> ValidationState
    decreases n,
{
    if n <= 0 {
        start
    } else {
        commit_step(commit_pass(start, conflicts, ids, now, n - 1), conflicts, ids[n - 1], now)
    }
}

/// The graph after the first `n` transactions of a list are confirmed at
/// time `now`, in order. A transaction that cannot be confirmed, because it
/// is not stored or is rejected, is passed over.
pub open spec fn confirm_pass(graph: GraphView, ids: Seq<u128>, now: u64, n: int) -> GraphView
    decreases n,
{
    if n <= 0 {
        graph
    } else {
        let before = confirm_pass(graph, ids, now, n - 1);
        if before.can_confirm(ids[n - 1]) {
            before.after_confirm(ids[n - 1], now)
        } else {
            before
        }
    }
}

impl GraphView {
    /// Whether a transaction is stored and validated or confirmed.
    pub open spec fn validated(self, id: u128) -> bool {
        self.contains(id) && (self.status_of(id) == TransactionStatus::Validated
            || self.status_of(id) == TransactionStatus::Confirmed)
    }

    /// Whether every transaction of a list is stored and validated or
    /// confirmed.
    pub open spec fn all_validated(self, ids: Seq<u128>) -> bool {
        forall|k: int| 0 <= k < ids.len() ==> self.validated(#[trigger] ids[k])
    }

    /// What is validated stays validated or becomes confirmed, whatever
    /// happens to the graph.
    pub proof fn lemma_validated_stays(self, later: GraphView, ids: Seq<u128>)
        requires
            self.ids_unique(),
            later.ids_unique(),
            self.advances_to(later),
            self.all_validated(ids),
        ensures
            later.all_validated(ids),
    {
        assert forall|k: int| 0 <= k < ids.len() implies later.validated(#[trigger] ids[k]) by {
            assert(self.validated(ids[k]));
            self.lemma_advances_keeps(later, ids[k]);
        }
    }
}

/// Milliseconds from `start` to `now`; 0 when `now` lies before `start`.
pub open spec fn elapsed(start: u64, now: u64) -> u64 {
    if now >= start {
        (now - start) as u64
    } else {
        0
    }
}

/// Why a phase cannot run.
pub ghost enum PhaseRefusal {
    /// No round is open.
    NoRound,
    /// The window of the open round has ended. The last phase runs all the
    /// same, so that a round can always be closed.
    Ended,
    /// The round is in another phase.
    WrongPhase,
}

/// Why a round cannot start.
pub ghost enum StartRefusal {
    /// A round is open and its window has not ended.
    RoundActive,
    /// The round counter or the clock has reached its largest value.
    Exhausted,
}

/// Why an operation on the open round is refused.
pub ghost enum RoundRefusal {
    /// No round is open.
    NoRound,
    /// The window of the open round has ended.
    Ended,
}

impl EngineView {
    /// This engine with the open round in another phase.
    pub open spec fn in_phase(self, phase: ConsensusPhase) -> EngineView {
        EngineView { round: Some(RoundView { phase, ..self.round->Some_0 }), ..self }
    }

    /// Why a round cannot start at `now`, if it cannot.
    pub open spec fn start_refusal(self, now: u64) -> Option<StartRefusal> {
        if self.round_active(now) {
            Some(StartRefusal::RoundActive)
        } else if self.round_counter == u64::MAX || now + self.config.round_duration
            > u64::MAX {
            Some(StartRefusal::Exhausted)
        } else {
            None
        }
    }

    /// Whether a start at `now` leads from this engine to `after` with the
    /// answer `result`.
    ///
    /// While a round is open and its window has not ended, no round can
    /// start: the call is refused with a consensus error and changes
    /// nothing. Otherwise the round counter goes up by one, and the round
    /// with that number opens in its first phase with the window from `now`
    /// to `now` plus the configured duration. It takes over the unresolved
    /// conflicts of the round that was open, if there was one, and the
    /// backlog. Batches that waited are let go; their transactions are still
    /// pending in the ledger, which stays as it is.
    pub open spec fn starts_round(
        self,
        after: EngineView,
        result: Result<(), SDUPIError>,
        now: u64,
    ) -> bool {
        match self.start_refusal(now) {
            Some(StartRefusal::RoundActive) => (result matches Err(SDUPIError::Consensus(m)) && m@
                == "Consensus round already active"@) && after == self,
            Some(StartRefusal::Exhausted) => (result matches Err(SDUPIError::Consensus(m)) && m@
                == "Round counter exhausted"@) && after == self,
            None => result is Ok && after == (EngineView {
                round: Some(
                    RoundView::opening(
                        (self.round_counter + 1) as u64,
                        now,
                        self.config.round_duration,
                        self.carried_conflicts(),
                    ),
                ),
                round_counter: (self.round_counter + 1) as u64,
                backlog: Seq::<ConflictView>::empty(),
                batches: Seq::<BatchView>::empty(),
                ..self
            }),
        }
    }

    /// Why an operation on the open round is refused at `now`, if it is.
    pub open spec fn round_refusal(self, now: u64) -> Option<RoundRefusal> {
        match self.round {
            None => Some(RoundRefusal::NoRound),
            Some(round) => if round.running_at(now) {
                None
            } else {
                Some(RoundRefusal::Ended)
            },
        }
    }

    /// The state on which a pass of validation starts.
    pub open spec fn validation_start(self) -> ValidationState {
        ValidationState {
            graph: self.ledger.graph,
            validators: self.validators,
            validated: match self.round {
                Some(round) => round.validated_transactions,
                None => Seq::<u128>::empty(),
            },
        }
    }

    /// Whether a validation of the tips at `now` leads from this engine to
    /// `after` with the answer `result`.
    ///
    /// Without an open round, and from the end of the round's window on, the
    /// call is refused with a consensus error and changes nothing. Otherwise
    /// the tips have their turns in the order of the tip cache: a tip that
    /// passes validation and is no candidate of an unresolved conflict of
    /// the round is marked validated, its sender is credited, and it joins
    /// the round's validated transactions. The answer counts them.
    pub open spec fn validates_tips<P: PrivacyProofVerifier>(
        self,
        after: EngineView,
        verifier: &P,
        result: Result<usize, SDUPIError>,
        now: u64,
    ) -> bool {
        match self.round_refusal(now) {
            Some(RoundRefusal::NoRound) => (result matches Err(SDUPIError::Consensus(m)) && m@
                == "No active consensus round"@) && after == self,
            Some(RoundRefusal::Ended) => (result matches Err(SDUPIError::Consensus(m)) && m@
                == "Consensus round has ended"@) && after == self,
            None => ({
                let round = self.round->Some_0;
                let end = validation_pass(
                    verifier,
                    self.validation_start(),
                    round.conflicts,
                    self.ledger.tips,
                    now,
                    self.ledger.tips.len() as int,
                );
                &&& (result matches Ok(count) && count + round.validated_transactions.len()
                    == end.validated.len())
                &&& after == (EngineView {
                    ledger: after.ledger,
                    validators: end.validators,
                    round: Some(RoundView { validated_transactions: end.validated, ..round }),
                    ..self
                })
                &&& after.ledger.graph == end.graph
                &&& self.ledger.graph.advances_to(after.ledger.graph)
                &&& after.ledger.graph.nodes.len() == self.ledger.graph.nodes.len()
                &&& forall|i: int|
                    0 <= i < self.ledger.graph.nodes.len() ==> #[trigger] after.ledger.graph.nodes[i]
                        == node_after_pass(
                        verifier,
                        self.ledger.graph,
                        round.conflicts,
                        self.ledger.tips,
                        now,
                        i,
                    )
                &&& forall|x: u128| #[trigger]
                    end.validated.contains(x) <==> round.validated_transactions.contains(x) || (
                    self.ledger.tips.contains(x) && qualifies(
                        verifier,
                        self.ledger.graph,
                        round.conflicts,
                        x,
                    ))
            }),
        }
    }

    /// Why a phase cannot run at `now`, if it cannot.
    pub open spec fn phase_refusal(self, phase: ConsensusPhase, now: u64) -> Option<PhaseRefusal> {
        match self.round {
            None => Some(PhaseRefusal::NoRound),
            Some(round) => if phase != ConsensusPhase::Finalize && !round.running_at(now) {
                Some(PhaseRefusal::Ended)
            } else if round.phase != phase {
                Some(PhaseRefusal::WrongPhase)
            } else {
                None
            },
        }
    }

    /// Whether the first phase at `now` leads from this engine to `after`:
    /// the pending queue is cut into batches of the configured size, every
    /// batch but the last full, each with the mean fee of its transactions
    /// as its priority; they replace the batches that waited. Then the round
    /// is in its second phase.
    pub open spec fn pre_prepares(self, after: EngineView, now: u64) -> bool {
        &&& after == (EngineView {
            round: Some(RoundView { phase: ConsensusPhase::Prepare, ..self.round->Some_0 }),
            batches: after.batches,
            ..self
        })
        &&& self.ledger.graph.cut_as(after.batches, self.config.batch_size as nat, now)
    }

    /// Whether the second phase leads from this engine to `after`: nothing
    /// changes but the phase of the round, which is its third.
    pub open spec fn prepares(self, after: EngineView) -> bool {
        after == (EngineView {
            round: Some(RoundView { phase: ConsensusPhase::Commit, ..self.round->Some_0 }),
            ..self
        })
    }

    /// The state after the transactions `ids` are taken in, in order, in
    /// the open round at time `now`.
    pub open spec fn committed(self, ids: Seq<u128>, now: u64) -> ValidationState {
        commit_pass(
            self.validation_start(),
            self.round->Some_0.conflicts,
            ids,
            now,
            ids.len() as int,
        )
    }

    /// Whether the third phase over the transactions `ids` at `now` leads
    /// from this engine to `after`: the transactions are taken in, in order;
    /// one that is stored, still pending and no candidate of an unresolved
    /// conflict of the round is marked validated, its sender is credited,
    /// and it joins the round's validated transactions. The batches that
    /// waited join the processed batches of the round. Then the round is in
    /// its last phase.
    pub open spec fn commits(self, after: EngineView, ids: Seq<u128>, now: u64) -> bool {
        let round = self.round->Some_0;
        let end = self.committed(ids, now);
        &&& after == (EngineView {
            ledger: after.ledger,
            validators: end.validators,
            round: Some(
                RoundView {
                    validated_transactions: end.validated,
                    phase: ConsensusPhase::Finalize,
                    processed_batches: round.processed_batches + self.batches,
                    ..round
                },
            ),
            batches: Seq::<BatchView>::empty(),
            ..self
        })
        &&& after.ledger.graph == end.graph
        &&& self.ledger.graph.advances_to(after.ledger.graph)
    }

    /// Whether the last phase at `now`, with the votes `votes` cast in it,
    /// leads from this engine to `after` and the record `record` of the
    /// closed round: the round's validated transactions are confirmed in
    /// their order, then a poll is held on every unresolved conflict of the
    /// round in their order, whose tallies decide, and the round is
    /// measured and closed. The conflicts that are still unresolved wait in
    /// the backlog for the next round.
    ///
    /// Whatever the votes are: every transaction
    /// validated in the round is confirmed; every conflict that is resolved
    /// now is decided in the graph; no conflict is lost; every transaction
    /// that was neither validated in the round nor is a candidate of a
    /// conflict resolved now stays as it was; and the graph has only
    /// advanced.
    pub open spec fn finalizes(
        self,
        after: EngineView,
        record: RoundView,
        votes: Seq<(u128, bool)>,
        now: u64,
    ) -> bool {
        let round = self.round->Some_0;
        let spent = elapsed(round.start_time, now);
        let confirmed = round.validated_transactions;
        let graph = self.ledger.graph;
        &&& after == (EngineView {
            ledger: after.ledger,
            round: None,
            backlog: unresolved(record.conflicts),
            batches: Seq::<BatchView>::empty(),
            metrics: self.metrics.after_round(confirmed.len(), spent),
            ..self
        })
        &&& same_conflicts(round.conflicts, record.conflicts)
        &&& record == (RoundView { conflicts: record.conflicts, metrics: record.metrics, ..round })
        &&& record.metrics == (RoundMetrics {
            transactions_processed: record.metrics.transactions_processed,
            processing_time: spent,
            tps_achieved: record.metrics.tps_achieved,
            conflicts_resolved: record.metrics.conflicts_resolved,
            ..round.metrics
        })
        &&& record.metrics.transactions_processed == confirmed.len()
        &&& record.metrics.tps_achieved == throughput(confirmed.len(), spent)
        &&& record.metrics.conflicts_resolved == newly_resolved(
            round.conflicts,
            record.conflicts,
            round.conflicts.len() as int,
        )
        &&& graph.advances_to(after.ledger.graph)
        &&& after.ledger.graph.nodes.len() == graph.nodes.len()
        &&& confirm_pass(graph, confirmed, now, confirmed.len() as int).advances_to(
            after.ledger.graph,
        )
        &&& confirm_pass(graph, confirmed, now, confirmed.len() as int).changes_settled_only(
            after.ledger.graph,
            round.conflicts,
            record.conflicts,
        )
        &&& is_pass(votes, round.conflicts, self.config.conflict_resolution.fpc_rounds)
        &&& (after.ledger.graph, record.conflicts) == pass_outcome(
            confirm_pass(graph, confirmed, now, confirmed.len() as int),
            round.conflicts,
            votes,
            self.config.conflict_resolution.fpc_rounds,
            self.config.conflict_resolution.fpc_threshold,
            now,
        )
        &&& forall|k: int|
            0 <= k < confirmed.len() ==> after.ledger.graph.contains(#[trigger] confirmed[k])
                && after.ledger.graph.status_of(confirmed[k]) == TransactionStatus::Confirmed
        &&& forall|k: int|
            0 <= k < round.conflicts.len() && !(#[trigger] round.conflicts[k]).resolved
                && record.conflicts[k].resolved ==> after.ledger.graph.decided(
                round.conflicts[k].transaction_ids,
            )
        &&& forall|i: int|
            0 <= i < graph.nodes.len() && !confirmed.contains(graph.id_at(i)) && !settled_candidate(
                round.conflicts,
                record.conflicts,
                graph.id_at(i),
            ) ==> #[trigger] after.ledger.graph.nodes[i] == graph.nodes[i]
    }
}

impl ConsensusEngine {
    /// The engine's configuration.
    pub open spec fn config(&self) -> AdvancedConsensusConfig {
        self@.config
    }

    /// The configured algorithm.
    pub fn configured_algorithm(&self) -> (algorithm: crate::consensus::ConsensusAlgorithm)
        ensures
            algorithm == self.config().algorithm,
    {
        self.config.algorithm
    }

    /// Why a round cannot start at `now`, if it cannot.
    pub open spec fn start_refusal(&self, now: u64) -> Option<StartRefusal> {
        self@.start_refusal(now)
    }

    /// Why an operation on the open round is refused at `now`, if it is.
    pub open spec fn round_refusal(&self, now: u64) -> Option<RoundRefusal> {
        self@.round_refusal(now)
    }

    /// Why a phase cannot run at `now`, if it cannot.
    pub open spec fn phase_refusal(&self, phase: ConsensusPhase, now: u64) -> Option<PhaseRefusal> {
        self@.phase_refusal(phase, now)
    }

    /// The state on which a pass of validation starts.
    pub open spec fn validation_start(&self) -> ValidationState {
        self@.validation_start()
    }

    /// The parts of the engine are consistent.
    pub closed spec fn parts_ok(&self) -> bool {
        &&& self.dag_ledger.wf()
        &&& self.validators.wf()
        &&& self.validators.min_stake() == self.config.min_stake
    }

    /// In an engine with consistent parts the order of registration names
    /// the registered validators, once each.
    pub proof fn lemma_validators_listed(&self)
        requires
            self.parts_ok(),
        ensures
            lists_validators(self@.validators, self@.validator_order),
    {
        self.validators.lemma_order();
    }

    /// The configuration of the engine's ledger.
    pub closed spec fn ledger_config(&self) -> crate::dag::AdvancedDAGConfig {
        self.dag_ledger.config()
    }

    /// The engine's invariant: consistent parts, a usable configuration,
    /// conflicts that each name one transaction only, as detection gives
    /// them, and an open round that bears the number of the round counter,
    /// has taken over the backlog, and whose validated transactions are
    /// stored and validated or confirmed.
    pub open spec fn wf(&self) -> bool {
        &&& self.parts_ok()
        &&& self@.ledger.wf()
        &&& self.config().usable()
        &&& all_single(self@.open_conflicts())
        &&& (self@.round matches Some(round) ==> round.round_number == self@.round_counter
            && self@.backlog.len() == 0 && self@.ledger.graph.all_validated(
            round.validated_transactions,
        ))
    }

    /// Creates an engine around a ledger, with no validators and no round.
    pub fn new(dag_ledger: AdvancedDAGLedger, config: AdvancedConsensusConfig) -> (engine:
        ConsensusEngine)
        requires
            dag_ledger.wf(),
            config.usable(),
        ensures
            engine.wf(),
            engine.config() == config,
            engine.ledger_config() == dag_ledger.config(),
            engine@ == (EngineView {
                ledger: dag_ledger@,
                validators: Map::<Seq<u8>, ValidatorStake>::empty(),
                validator_order: Seq::<Seq<u8>>::empty(),
                round: None,
                round_counter: 0,
                backlog: Seq::<ConflictView>::empty(),
                batches: Seq::<BatchView>::empty(),
                config,
                metrics: PerformanceMetrics::fresh(),
            }),
    {
        let engine = ConsensusEngine {
            dag_ledger,
            validators: ValidatorRegistry::new(config.min_stake),
            current_round: None,
            config,
            round_counter: 0,
            backlog: Vec::new(),
            transaction_batches: Vec::new(),
            performance_metrics: PerformanceMetrics::default(),
        };
        assert(engine@.backlog =~= Seq::<ConflictView>::empty());
        assert(engine@.batches =~= Seq::<BatchView>::empty());
        engine
    }

    /// The engine's ledger.
    pub fn ledger(&self) -> (ledger: &AdvancedDAGLedger)
        requires
            self.wf(),
        ensures
            ledger.wf(),
            ledger@ == self@.ledger,
            ledger.config() == self.ledger_config(),
    {
        &self.dag_ledger
    }

    /// The validator registry.
    pub fn validators(&self) -> (registry: &ValidatorRegistry)
        requires
            self.wf(),
        ensures
            registry.wf(),
            registry@ == self@.validators,
            registry.order() == self@.validator_order,
            registry.min_stake() == self.config().min_stake,
    {
        &self.validators
    }

    /// The open round, if any.
    pub fn current_round(&self) -> (round: &Option<AdvancedConsensusRound>)
        ensures
            round is Some <==> self@.round is Some,
            round matches Some(r) ==> Some(r@) == self@.round,
    {
        &self.current_round
    }

    /// The conflicts that wait for the next round.
    pub fn backlog(&self) -> (backlog: &Vec<Conflict>)
        ensures
            conflict_views(backlog@) == self@.backlog,
    {
        &self.backlog
    }

    /// The batches that wait to be processed.
    pub fn transaction_batches(&self) -> (batches: &Vec<TransactionBatch>)
        ensures
            batch_views(batches@) == self@.batches,
    {
        &self.transaction_batches
    }

    /// Registers a validator with a stake. A stake below the configured
    /// minimum is refused with an insufficient-stake error and creates no
    /// entry; otherwise the validator gets a fresh entry.
    pub fn register_validator(&mut self, public_key: PublicKey, stake_amount: u64) -> (result:
        Result<(), SDUPIError>)
        requires
            old(self).wf(),
        ensures
            final(self).wf(),
            final(self).config() == old(self).config(),
            final(self).ledger_config() == old(self).ledger_config(),
            result is Ok <==> stake_amount >= old(self).config().min_stake,
            result is Ok ==> final(self)@ == (EngineView {
                validators: old(self)@.validators.insert(
                    public_key@,
                    ValidatorStake::fresh(public_key, stake_amount),
                ),
                validator_order: order_with(
                    old(self)@.validators,
                    old(self)@.validator_order,
                    public_key@,
                ),
                ..old(self)@
            }),
            result is Err ==> final(self)@ == old(self)@,
            result matches Err(e) ==> e matches SDUPIError::InsufficientStake(_),
    {
        self.validators.register(public_key, stake_amount)
    }

    /// Takes a transaction into the ledger at time `now`. A conflict that the
    /// ledger detects is attached to the open round, or to the backlog when
    /// no round is open, and a copy of it is handed back.
    pub fn submit_transaction(&mut self, transaction: Transaction, now: u64) -> (result: Result<
        Option<Conflict>,
        SDUPIError,
    >)
        requires
            old(self).wf(),
        ensures
            final(self).wf(),
            final(self).config() == old(self).config(),
            final(self).ledger_config() == old(self).ledger_config(),
            final(self)@.validators == old(self)@.validators,
            final(self)@.validator_order == old(self)@.validator_order,
            final(self)@.round_counter == old(self)@.round_counter,
            final(self)@.batches == old(self)@.batches,
            final(self)@.metrics == old(self)@.metrics,
            old(self)@.ledger.graph.advances_to(final(self)@.ledger.graph),
            match old(self)@.ledger.graph.admission(transaction@) {
                Admission::Accepted => (result matches Ok(None)) && final(self)@.ledger.graph
                    == old(self)@.ledger.graph.entered(
                    transaction@,
                    priority_score(
                        transaction@,
                        old(self).ledger_config().priority_weights,
                        now,
                    ) as u128,
                ) && final(self)@.open_conflicts() == old(self)@.open_conflicts(),
                Admission::MissingParent => (result matches Ok(Some(c))
                    && Some(c@) == old(self)@.ledger.graph.detect(transaction@, now)
                    && final(self)@.open_conflicts()
                    == old(self)@.open_conflicts().push(c@)) && final(self)@.ledger == old(self)@.ledger,
                Admission::DoubleSpend => (result matches Ok(Some(c))
                    && Some(c@) == old(self)@.ledger.graph.detect(transaction@, now)
                    && final(self)@.open_conflicts()
                    == old(self)@.open_conflicts().push(c@)) && final(self)@.ledger == old(self)@.ledger,
                _ => result is Err && final(self)@ == old(self)@,
            },
            (final(self)@.round is Some) == (old(self)@.round is Some),
    {
        let answer = self.dag_ledger.add_transaction_advanced(transaction, now);
        proof {
            if let Some(round) = old(self)@.round {
                old(self)@.ledger.graph.lemma_validated_stays(
                    self.dag_ledger@.graph,
                    round.validated_transactions,
                );
            }
        }
        match answer {
            Ok(Some(conflict)) => {
                let copy = conflict.clone();
                match &mut self.current_round {
                    Some(round) => {
                        let ghost before = round.conflicts@;
                        round.conflicts.push(conflict);
                        assert(conflict_views(round.conflicts@) =~= conflict_views(before).push(
                            copy@,
                        ));
                    },
                    None => {
                        let ghost before = self.backlog@;
                        self.backlog.push(conflict);
                        assert(conflict_views(self.backlog@) =~= conflict_views(before).push(
                            copy@,
                        ));
                    },
                }
                proof {
                    assert(self@.open_conflicts() =~= old(self)@.open_conflicts().push(copy@));
                }
                Ok(Some(copy))
            },
            Ok(None) => Ok(None),
            Err(e) => Err(e),
        }
    }

    /// Checks a transaction against the ledger without changing anything: a
    /// parent that is not stored is an invalid-parent conflict of the
    /// transaction alone; otherwise an identifier borne by a stored
    /// transaction that is no longer pending is a double spend.
    pub fn detect_conflicts(&self, transaction: &Transaction, now: u64) -> (result: Result<
        Option<Conflict>,
        SDUPIError,
    >)
        requires
            self.wf(),
        ensures
            result matches Ok(found) && (found is Some <==> self@.ledger.graph.detect(
                transaction@,
                now,
            ) is Some) && (found matches Some(c) ==> Some(c@) == self@.ledger.graph.detect(
                transaction@,
                now,
            )),
    {
        Ok(self.dag_ledger.detect_conflict(transaction, now))
    }

    /// Totals of the engine: validators and their stake, the number of the
    /// open round, the rounds started, and the validators of the open round.
    pub fn get_statistics(&self) -> (result: Result<ConsensusStats, SDUPIError>)
        requires
            self.wf(),
        ensures
            result matches Ok(stats) && stats.total_rounds == self@.round_counter
                && stats.current_round == (match self@.round {
                Some(round) => Some(round.round_number),
                None => None,
            }) && stats.active_validators == (match self@.round {
                Some(round) => round.validators.len(),
                None => 0,
            }) && stats.total_validators == self@.validator_order.len() && stats.total_stake
                == self@.total_stake(),
    {
        let (current_round, active_validators) = match &self.current_round {
            Some(round) => (Some(round.round_number), round.validators.len()),
            None => (None, 0),
        };
        Ok(
            ConsensusStats {
                total_validators: self.validators.len(),
                total_stake: self.validators.total_stake(),
                current_round,
                total_rounds: self.round_counter,
                active_validators,
            },
        )
    }

    /// The engine's measurements.
    pub fn get_performance_metrics(&self) -> (result: Result<PerformanceMetrics, SDUPIError>)
        ensures
            result == Ok::<PerformanceMetrics, SDUPIError>(self@.metrics),
    {
        Ok(self.performance_metrics)
    }

    /// Copies the unresolved conflicts of a list, in order.
    fn copy_unresolved(conflicts: &Vec<Conflict>) -> (copies: Vec<Conflict>)
        ensures
            conflict_views(copies@) == unresolved(conflict_views(conflicts@)),
    {
        let mut copies: Vec<Conflict> = Vec::new();
        let ghost views = conflict_views(conflicts@);
        let mut k: usize = 0;
        while k < conflicts.len()
            invariant
                k <= conflicts@.len(),
                views == conflict_views(conflicts@),
                conflict_views(copies@) == unresolved_among(views, k as int),
            decreases conflicts@.len() - k,
        {
            assert(views[k as int] == conflicts@[k as int]@);
            if !conflicts[k].resolved {
                let ghost before = conflict_views(copies@);
                copies.push(conflicts[k].clone());
                assert(conflict_views(copies@) =~= before.push(views[k as int]));
            }
            k += 1;
        }
        copies
    }

    /// Starts a round at time `now`: what `starts_round` describes.
    pub fn start_round_at(&mut self, now: u64) -> (result: Result<(), SDUPIError>)
        requires
            old(self).wf(),
        ensures
            final(self).wf(),
            final(self).ledger_config() == old(self).ledger_config(),
            old(self)@.starts_round(final(self)@, result, now),
    {
        let active = match &self.current_round {
            Some(round) => now < round.end_time,
            None => false,
        };
        if active {
            return Err(SDUPIError::Consensus(String::from_str("Consensus round already active")));
        }
        if self.round_counter == u64::MAX || now > u64::MAX - self.config.round_duration {
            return Err(SDUPIError::Consensus(String::from_str("Round counter exhausted")));
        }
        let mut conflicts: Vec<Conflict> = Vec::new();
        match &self.current_round {
            Some(round) => {
                conflicts = ConsensusEngine::copy_unresolved(&round.conflicts);
                assert(self@.backlog.len() == 0);
                assert(conflict_views(conflicts@) =~= old(self)@.carried_conflicts());
            },
            None => {
                std::mem::swap(&mut self.backlog, &mut conflicts);
            },
        }
        self.backlog = Vec::new();
        self.round_counter = self.round_counter + 1;
        self.transaction_batches = Vec::new();
        self.current_round = Some(
            AdvancedConsensusRound {
                round_number: self.round_counter,
                start_time: now,
                end_time: now + self.config.round_duration,
                phase: ConsensusPhase::PrePrepare,
                validators: Vec::new(),
                validated_transactions: Vec::new(),
                conflicts,
                processed_batches: Vec::new(),
                metrics: RoundMetrics::default(),
            },
        );
        proof {
            let round = self@.round->Some_0;
            assert(round.validators =~= Seq::<Seq<u8>>::empty());
            assert(round.processed_batches =~= Seq::<BatchView>::empty());
            assert(self@.backlog =~= Seq::<ConflictView>::empty());
            assert(self@.batches =~= Seq::<BatchView>::empty());
            match old(self)@.round {
                Some(open) => {
                    assert(old(self)@.open_conflicts() =~= open.conflicts);
                    lemma_unresolved_single(open.conflicts);
                },
                None => {},
            }
            assert(self@.open_conflicts() =~= old(self)@.carried_conflicts());
        }
        Ok(())
    }

    /// Starts a round at the current time: what `starts_round` describes
    /// for the reading of the clock.
    ///
    /// Whatever the clock reads: without an open round the call succeeds,
    /// unless the round counter is at its largest value or the configured
    /// duration leaves the range of the clock; with the counter at its
    /// largest value it fails.
    pub fn start_round(&mut self) -> (result: Result<(), SDUPIError>)
        requires
            old(self).wf(),
        ensures
            final(self).wf(),
            final(self).ledger_config() == old(self).ledger_config(),
            exists|now: u64|
                clock_reading(now) && #[trigger] old(self)@.starts_round(final(self)@, result, now),
            old(self)@.round is None && old(self)@.round_counter < u64::MAX && old(
                self,
            ).config().round_duration <= 0x8000_0000_0000_0000 ==> result is Ok,
            old(self)@.round_counter == u64::MAX ==> result is Err,
            result is Err ==> final(self)@ == old(self)@,
            result matches Err(e) ==> e matches SDUPIError::Consensus(_),
            result is Ok ==> final(self)@.round_counter == old(self)@.round_counter + 1
                && (final(self)@.round matches Some(round)
                && round.round_number == final(self)@.round_counter
                && round.phase == ConsensusPhase::PrePrepare && round.end_time == round.start_time
                + old(self).config().round_duration
                    && round.conflicts == old(self)@.carried_conflicts())
                    && final(self)@.ledger == old(self)@.ledger
                    && final(self)@.validators == old(self)@.validators,
    {
        let now = now_millis();
        self.start_round_at(now)
    }

    /// Whether a transaction is a candidate of an unresolved conflict.
    fn is_disputed(conflicts: &Vec<Conflict>, id: u128) -> (found: bool)
        ensures
            found == disputed(conflict_views(conflicts@), id),
    {
        let ghost views = conflict_views(conflicts@);
        let mut k: usize = 0;
        while k < conflicts.len()
            invariant
                k <= conflicts@.len(),
                views == conflict_views(conflicts@),
                forall|m: int|
                    0 <= m < k ==> (#[trigger] views[m]).resolved
                        || !views[m].transaction_ids.contains(id),
            decreases conflicts@.len() - k,
        {
            assert(views[k as int] == conflicts@[k as int]@);
            if !conflicts[k].resolved {
                let mut j: usize = 0;
                while j < conflicts[k].transaction_ids.len()
                    invariant
                        k < conflicts@.len(),
                        views == conflict_views(conflicts@),
                        !views[k as int].resolved,
                        j <= conflicts@[k as int].transaction_ids@.len(),
                        forall|m: int| 0 <= m < j ==> conflicts@[k as int].transaction_ids@[m] != id,
                    decreases conflicts@[k as int].transaction_ids@.len() - j,
                {
                    if conflicts[k].transaction_ids[j] == id {
                        assert(views[k as int].transaction_ids[j as int] == id);
                        return true;
                    }
                    j += 1;
                }
            }
            k += 1;
        }
        false
    }

    /// Validates the current tips in the open round, at time `now`: what
    /// `validates_tips` describes.
    pub fn validate_transactions_at<P: PrivacyProofVerifier>(&mut self, verifier: &P, now: u64) -> (result:
        Result<usize, SDUPIError>)
        requires
            old(self).wf(),
        ensures
            final(self).wf(),
            final(self).ledger_config() == old(self).ledger_config(),
            old(self)@.validates_tips(final(self)@, verifier, result, now),
    {
        proof {
            if old(self).round_refusal(now) is None {
                let tips = old(self)@.ledger.tips;
                let graph = old(self)@.ledger.graph;
                assert forall|a: int, b: int| 0 <= a < tips.len() && 0 <= b < tips.len() && a
                    != b implies tips[a] != tips[b] by {
                    if a < b {
                        assert(graph.ranks_before(tips[a], tips[b]));
                    } else {
                        assert(graph.ranks_before(tips[b], tips[a]));
                    }
                }
                lemma_validation_pass(
                    verifier,
                    old(self).validation_start(),
                    old(self)@.round->Some_0.conflicts,
                    tips,
                    now,
                    tips.len() as int,
                );
                assert(tips.subrange(0, tips.len() as int) =~= tips);
            }
        }
        match &self.current_round {
            None => {
                return Err(SDUPIError::Consensus(String::from_str("No active consensus round")));
            },
            Some(round) => {
                if now >= round.end_time {
                    return Err(
                        SDUPIError::Consensus(String::from_str("Consensus round has ended")),
                    );
                }
            },
        }
        let mut slot: Option<AdvancedConsensusRound> = None;
        std::mem::swap(&mut self.current_round, &mut slot);
        let mut round = slot.unwrap();
        let ghost start = old(self).validation_start();
        let ghost conflicts = conflict_views(round.conflicts@);
        let tips = self.dag_ledger.get_tips();
        let ghost before = round@;
        let mut count: usize = 0;
        proof {
            start.graph.lemma_advances(start.graph, start.graph);
        }
        let mut k: usize = 0;
        while k < tips.len()
            invariant
                k <= tips@.len(),
                self.dag_ledger.wf(),
                self.validators.wf(),
                self.validators.min_stake() == old(self).validators.min_stake(),
                self.validators.order() == old(self).validators.order(),
                self.dag_ledger.config() == old(self).dag_ledger.config(),
                self.config == old(self).config,
                self.round_counter == old(self).round_counter,
                self.backlog == old(self).backlog,
                self.transaction_batches == old(self).transaction_batches,
                self.performance_metrics == old(self).performance_metrics,
                conflicts == conflict_views(round.conflicts@),
                round@ == (RoundView { validated_transactions: round.validated_transactions@, ..before }),
                start.graph.advances_to(self.dag_ledger@.graph),
                self.dag_ledger@.graph.all_validated(round.validated_transactions@),
                (ValidationState {
                    graph: self.dag_ledger@.graph,
                    validators: self.validators@,
                    validated: round.validated_transactions@,
                }) == validation_pass(verifier, start, conflicts, tips@, now, k as int),
                count + before.validated_transactions.len() == round.validated_transactions@.len(),
                count <= k,
            decreases tips@.len() - k,
        {
            let id = tips[k];
            let ghost graph = self.dag_ledger@.graph;
            match self.dag_ledger.get_transaction(id) {
                Some(transaction) => {
                    if check_transaction(verifier, &transaction) && !ConsensusEngine::is_disputed(
                        &round.conflicts,
                        id,
                    ) {
                        let ghost listed_before = round.validated_transactions@;
                        let validated = self.dag_ledger.validate_transaction(id, now);
                        assert(validated is Ok);
                        self.validators.record_validation(&transaction.sender, now);
                        round.validated_transactions.push(id);
                        count += 1;
                        proof {
                            let next = self.dag_ledger@.graph;
                            start.graph.lemma_advances(graph, next);
                            graph.lemma_validated_stays(next, listed_before);
                            graph.lemma_contains(id);
                            graph.lemma_moved_lookup(
                                graph.index_of(id),
                                TransactionStatus::Validated,
                                Some(now),
                                id,
                            );
                            assert(next.validated(id));
                            assert forall|m: int|
                                0 <= m < round.validated_transactions@.len() implies next.validated(
                                #[trigger] round.validated_transactions@[m],
                            ) by {
                                if m < listed_before.len() {
                                    assert(round.validated_transactions@[m] == listed_before[m]);
                                }
                            }
                        }
                    }
                },
                None => {},
            }
            k += 1;
        }
        self.current_round = Some(round);
        Ok(count)
    }

    /// Validates the current tips in the open round, at the current time:
    /// what `validates_tips` describes for the reading of the clock.
    pub fn validate_transactions<P: PrivacyProofVerifier>(&mut self, verifier: &P) -> (result:
        Result<usize, SDUPIError>)
        requires
            old(self).wf(),
        ensures
            final(self).wf(),
            final(self).ledger_config() == old(self).ledger_config(),
            exists|now: u64|
                clock_reading(now) && #[trigger] old(self)@.validates_tips(
                    final(self)@,
                    verifier,
                    result,
                    now,
                ),
            result is Err ==> final(self)@ == old(self)@,
            result matches Err(e) ==> e matches SDUPIError::Consensus(_),
            old(self)@.round is None ==> result is Err,
            result is Ok ==> old(self)@.ledger.graph.advances_to(final(self)@.ledger.graph)
                && final(self)@.round_counter == old(self)@.round_counter && final(self)@.backlog
                == old(self)@.backlog,
    {
        let now = now_millis();
        self.validate_transactions_at(verifier, now)
    }

    /// Checks that a phase can run at `now`.
    fn admit_phase(&self, phase: ConsensusPhase, now: u64) -> (result: Result<(), SDUPIError>)
        ensures
            result is Ok <==> self.phase_refusal(phase, now) is None,
            match self.phase_refusal(phase, now) {
                Some(PhaseRefusal::NoRound) => result matches Err(SDUPIError::Consensus(m)) && m@
                    == "No active consensus round"@,
                Some(PhaseRefusal::Ended) => result matches Err(SDUPIError::Consensus(m)) && m@
                    == "Consensus round has ended"@,
                Some(PhaseRefusal::WrongPhase) => result matches Err(SDUPIError::Consensus(m))
                    && m@ == "Consensus round is in another phase"@,
                None => true,
            },
    {
        match &self.current_round {
            None => Err(SDUPIError::Consensus(String::from_str("No active consensus round"))),
            Some(round) => {
                if phase != ConsensusPhase::Finalize && now >= round.end_time {
                    Err(SDUPIError::Consensus(String::from_str("Consensus round has ended")))
                } else if round.phase != phase {
                    Err(
                        SDUPIError::Consensus(
                            String::from_str("Consensus round is in another phase"),
                        ),
                    )
                } else {
                    Ok(())
                }
            },
        }
    }

    /// Sets the phase of the open round.
    fn enter_phase(&mut self, phase: ConsensusPhase)
        requires
            old(self)@.round is Some,
        ensures
            final(self)@ == (EngineView {
                round: Some(RoundView { phase, ..old(self)@.round->Some_0 }),
                ..old(self)@
            }),
            final(self).ledger_config() == old(self).ledger_config(),
            final(self).parts_ok() == old(self).parts_ok(),
    {
        let mut slot: Option<AdvancedConsensusRound> = None;
        std::mem::swap(&mut self.current_round, &mut slot);
        let mut round = slot.unwrap();
        round.phase = phase;
        self.current_round = Some(round);
    }

    /// Runs the first phase at time `now`: what `pre_prepares` describes.
    /// A phase that cannot run is refused and changes nothing.
    pub fn pre_prepare_phase(&mut self, now: u64) -> (result: Result<(), SDUPIError>)
        requires
            old(self).wf(),
        ensures
            final(self).wf(),
            final(self).ledger_config() == old(self).ledger_config(),
            result is Ok <==> old(self).phase_refusal(ConsensusPhase::PrePrepare, now) is None,
            result matches Err(e) ==> e matches SDUPIError::Consensus(_),
            result is Err ==> final(self)@ == old(self)@,
            result is Ok ==> old(self)@.pre_prepares(final(self)@, now),
    {
        match self.admit_phase(ConsensusPhase::PrePrepare, now) {
            Err(e) => {
                return Err(e);
            },
            Ok(()) => {},
        }
        self.transaction_batches = cut_pending(&self.dag_ledger, self.config.batch_size, now);
        proof {
            self.dag_ledger@.graph.lemma_cut_views(
                self.transaction_batches@,
                self.config.batch_size as nat,
                now,
            );
        }
        self.enter_phase(ConsensusPhase::Prepare);
        Ok(())
    }

    /// Runs the second phase at time `now`: the batches are dealt to the
    /// workers in turn. The answer names the worker of each batch. Then the
    /// round is in its third phase.
    pub fn prepare_phase(&mut self, now: u64) -> (result: Result<Vec<usize>, SDUPIError>)
        requires
            old(self).wf(),
        ensures
            final(self).wf(),
            final(self).ledger_config() == old(self).ledger_config(),
            result is Ok <==> old(self).phase_refusal(ConsensusPhase::Prepare, now) is None,
            result matches Err(e) ==> e matches SDUPIError::Consensus(_),
            result is Err ==> final(self)@ == old(self)@,
            result matches Ok(plan) ==> old(self)@.prepares(final(self)@) && plan@.len() == old(
                self,
            )@.batches.len() && forall|k: int|
                0 <= k < plan@.len() ==> plan@[k] == worker_of(
                    k as nat,
                    old(self).config().parallel_workers as nat,
                ),
    {
        match self.admit_phase(ConsensusPhase::Prepare, now) {
            Err(e) => {
                return Err(e);
            },
            Ok(()) => {},
        }
        let plan = dispatch_plan(self.transaction_batches.len(), self.config.parallel_workers);
        self.enter_phase(ConsensusPhase::Commit);
        Ok(plan)
    }

    /// Deals the waiting batches to the workers in turn: the worker of each
    /// batch.
    pub fn deal_batches(&self) -> (plan: Vec<usize>)
        requires
            self.wf(),
        ensures
            plan@.len() == self@.batches.len(),
            forall|k: int|
                0 <= k < plan@.len() ==> plan@[k] == worker_of(
                    k as nat,
                    self.config().parallel_workers as nat,
                ),
    {
        dispatch_plan(self.transaction_batches.len(), self.config.parallel_workers)
    }

    /// Lets the workers of a plan validate the waiting batches, one after
    /// the other. Result `k` is that of the worker of batch `k`, and lists
    /// the transactions of the batch that pass validation.
    pub fn run_workers<P: PrivacyProofVerifier>(&self, plan: &Vec<usize>, verifier: &P) -> (results:
        Vec<ValidationResult>)
        requires
            plan@.len() == self@.batches.len(),
        ensures
            results_of(verifier, self@.batches, results@),
            forall|k: int|
                0 <= k < results@.len() ==> (#[trigger] results@[k]).worker_id == plan@[k]
                    && results@[k].status == batch_status(
                    results@[k].validated_transactions@.len(),
                    self@.batches[k].transactions.len(),
                ),
    {
        let mut results: Vec<ValidationResult> = Vec::new();
        let mut k: usize = 0;
        while k < self.transaction_batches.len()
            invariant
                k <= self.transaction_batches@.len(),
                plan@.len() == self.transaction_batches@.len(),
                results@.len() == k,
                forall|m: int|
                    0 <= m < k ==> (#[trigger] results@[m]).batch_id
                        == self.transaction_batches@[m].batch_id && results@[m].worker_id
                        == plan@[m] && results@[m].validated_transactions@ == validated_among(
                        verifier,
                        self.transaction_batches@[m]@.transactions,
                        self.transaction_batches@[m]@.transactions.len() as int,
                    ) && results@[m].status == batch_status(
                        results@[m].validated_transactions@.len(),
                        self.transaction_batches@[m]@.transactions.len(),
                    ),
            decreases self.transaction_batches@.len() - k,
        {
            let worker = ValidationWorker { worker_id: plan[k] };
            results.push(worker.validate_batch(&self.transaction_batches[k], verifier));
            k += 1;
        }
        proof {
            assert forall|m: int| 0 <= m < results@.len() implies self@.batches[m]
                == self.transaction_batches@[m]@ by {}
        }
        results
    }

    /// Joins the lists of validated transactions of results, in order.
    pub fn aggregate_results(results: &Vec<ValidationResult>) -> (ids: Vec<u128>)
        ensures
            ids@ == listed(results@, results@.len() as int),
    {
        let mut ids: Vec<u128> = Vec::new();
        let mut k: usize = 0;
        while k < results.len()
            invariant
                k <= results@.len(),
                ids@ == listed(results@, k as int),
            decreases results@.len() - k,
        {
            let ghost before = ids@;
            let mut j: usize = 0;
            while j < results[k].validated_transactions.len()
                invariant
                    k < results@.len(),
                    j <= results@[k as int].validated_transactions@.len(),
                    ids@ == before + results@[k as int].validated_transactions@.subrange(
                        0,
                        j as int,
                    ),
                decreases results@[k as int].validated_transactions@.len() - j,
            {
                ids.push(results[k].validated_transactions[j]);
                assert(ids@ =~= before + results@[k as int].validated_transactions@.subrange(
                    0,
                    j + 1,
                ));
                j += 1;
            }
            assert(results@[k as int].validated_transactions@.subrange(
                0,
                results@[k as int].validated_transactions@.len() as int,
            ) =~= results@[k as int].validated_transactions@);
            k += 1;
        }
        ids
    }

    /// Runs the third phase at time `now` over the transactions that the
    /// workers' results list as validated: what `commits` describes. The
    /// answer counts the transactions that were marked validated.
    pub fn commit_phase(&mut self, results: &Vec<ValidationResult>, now: u64) -> (result: Result<
        usize,
        SDUPIError,
    >)
        requires
            old(self).wf(),
        ensures
            final(self).wf(),
            final(self).ledger_config() == old(self).ledger_config(),
            result is Ok <==> old(self).phase_refusal(ConsensusPhase::Commit, now) is None,
            result matches Err(e) ==> e matches SDUPIError::Consensus(_),
            result is Err ==> final(self)@ == old(self)@,
            result matches Ok(count) ==> old(self)@.commits(
                final(self)@,
                listed(results@, results@.len() as int),
                now,
            ) && count + old(self)@.round->Some_0.validated_transactions.len() == old(self)@.committed(listed(results@, results@.len() as int), now).validated.len(),
    {
        match self.admit_phase(ConsensusPhase::Commit, now) {
            Err(e) => {
                return Err(e);
            },
            Ok(()) => {},
        }
        let ids = ConsensusEngine::aggregate_results(results);
        let mut slot: Option<AdvancedConsensusRound> = None;
        std::mem::swap(&mut self.current_round, &mut slot);
        let mut round = slot.unwrap();
        let ghost start = old(self).validation_start();
        let ghost conflicts = conflict_views(round.conflicts@);
        let ghost before = round@;
        let mut count: usize = 0;
        proof {
            start.graph.lemma_advances(start.graph, start.graph);
        }
        let mut k: usize = 0;
        while k < ids.len()
            invariant
                k <= ids@.len(),
                self.dag_ledger.wf(),
                self.validators.wf(),
                self.validators.min_stake() == old(self).validators.min_stake(),
                self.validators.order() == old(self).validators.order(),
                self.dag_ledger.config() == old(self).dag_ledger.config(),
                self.config == old(self).config,
                self.round_counter == old(self).round_counter,
                self.backlog == old(self).backlog,
                self.transaction_batches == old(self).transaction_batches,
                self.performance_metrics == old(self).performance_metrics,
                conflicts == conflict_views(round.conflicts@),
                round@ == (RoundView { validated_transactions: round.validated_transactions@, ..before }),
                start.graph.advances_to(self.dag_ledger@.graph),
                self.dag_ledger@.graph.all_validated(round.validated_transactions@),
                (ValidationState {
                    graph: self.dag_ledger@.graph,
                    validators: self.validators@,
                    validated: round.validated_transactions@,
                }) == commit_pass(start, conflicts, ids@, now, k as int),
                count + before.validated_transactions.len() == round.validated_transactions@.len(),
                count <= k,
            decreases ids@.len() - k,
        {
            let id = ids[k];
            let ghost graph = self.dag_ledger@.graph;
            match self.dag_ledger.get_transaction(id) {
                Some(transaction) => {
                    if transaction.status == TransactionStatus::Pending
                        && !ConsensusEngine::is_disputed(&round.conflicts, id) {
                        let ghost listed_before = round.validated_transactions@;
                        let validated = self.dag_ledger.validate_transaction(id, now);
                        assert(validated is Ok);
                        self.validators.record_validation(&transaction.sender, now);
                        round.validated_transactions.push(id);
                        count += 1;
                        proof {
                            let next = self.dag_ledger@.graph;
                            start.graph.lemma_advances(graph, next);
                            graph.lemma_validated_stays(next, listed_before);
                            graph.lemma_contains(id);
                            graph.lemma_moved_lookup(
                                graph.index_of(id),
                                TransactionStatus::Validated,
                                Some(now),
                                id,
                            );
                            assert(next.validated(id));
                            assert forall|m: int|
                                0 <= m < round.validated_transactions@.len() implies next.validated(
                                #[trigger] round.validated_transactions@[m],
                            ) by {
                                if m < listed_before.len() {
                                    assert(round.validated_transactions@[m] == listed_before[m]);
                                }
                            }
                        }
                    }
                },
                None => {},
            }
            k += 1;
        }
        let mut batches: Vec<TransactionBatch> = Vec::new();
        std::mem::swap(&mut self.transaction_batches, &mut batches);
        let ghost processed = round.processed_batches@;
        let ghost waited = batches@;
        round.processed_batches.append(&mut batches);
        round.phase = ConsensusPhase::Finalize;
        proof {
            assert(batch_views(round.processed_batches@) =~= batch_views(processed)
                + batch_views(waited));
            assert(batch_views(self.transaction_batches@) =~= Seq::<BatchView>::empty());
        }
        self.current_round = Some(round);
        Ok(count)
    }

    /// Holds a poll on every unresolved conflict of the open round, at time
    /// `now`, with the configured number of rounds and threshold: what
    /// `pass_outcome` gives for the votes that the strategy casts.
    ///
    /// Without an open round the call is refused, casts no vote and changes
    /// nothing. Whatever the votes are, the
    /// answer counts the conflicts that are resolved now, each of which is
    /// decided in the graph with one candidate confirmed and every other
    /// rejected; every transaction that is a candidate of none of them
    /// stays as it was; and nothing else of the engine changes.
    pub fn resolve_conflicts_fpc<V: VotingStrategy>(&mut self, strategy: &mut V, now: u64) -> (result:
        Result<usize, SDUPIError>)
        requires
            old(self).wf(),
        ensures
            final(self).wf(),
            final(self).ledger_config() == old(self).ledger_config(),
            result is Ok <==> old(self)@.round is Some,
            continues(old(strategy).cast(), final(strategy).cast()),
            result matches Err(e) ==> (e matches SDUPIError::Consensus(m) && m@
                == "No active consensus round"@) && final(self)@ == old(self)@ && final(strategy).cast() == old(strategy).cast(),
            result matches Ok(count) ==> ({
                let round = old(self)@.round->Some_0;
                &&& final(self)@.round is Some
                &&& same_conflicts(round.conflicts, final(self)@.round->Some_0.conflicts)
                &&& count == newly_resolved(
                    round.conflicts,
                    final(self)@.round->Some_0.conflicts,
                    round.conflicts.len() as int,
                )
                &&& final(self)@ == (EngineView {
                    ledger: final(self)@.ledger,
                    round: Some(
                        RoundView { conflicts: final(self)@.round->Some_0.conflicts, ..round },
                    ),
                    ..old(self)@
                })
                &&& old(self)@.ledger.graph.advances_to(final(self)@.ledger.graph)
                &&& (count == 0 ==> final(self)@ == old(self)@)
                &&& forall|k: int|
                    0 <= k < round.conflicts.len() && !(#[trigger] round.conflicts[k]).resolved
                        && final(self)@.round->Some_0.conflicts[k].resolved
                            ==> final(self)@.ledger.graph.decided(round.conflicts[k].transaction_ids)
                &&& old(self)@.ledger.graph.changes_settled_only(
                    final(self)@.ledger.graph,
                    round.conflicts,
                    final(self)@.round->Some_0.conflicts,
                )
                &&& is_pass(
                    votes_since(old(strategy).cast(), final(strategy).cast()),
                    round.conflicts,
                    old(self).config().conflict_resolution.fpc_rounds,
                )
                &&& (final(self)@.ledger.graph, final(self)@.round->Some_0.conflicts)
                    == pass_outcome(
                    old(self)@.ledger.graph,
                    round.conflicts,
                    votes_since(old(strategy).cast(), final(strategy).cast()),
                    old(self).config().conflict_resolution.fpc_rounds,
                    old(self).config().conflict_resolution.fpc_threshold,
                    now,
                )
            }),
    {
        if self.current_round.is_none() {
            return Err(SDUPIError::Consensus(String::from_str("No active consensus round")));
        }
        let mut slot: Option<AdvancedConsensusRound> = None;
        std::mem::swap(&mut self.current_round, &mut slot);
        let mut round = slot.unwrap();
        let count = resolve_all(
            &mut self.dag_ledger,
            &mut round.conflicts,
            strategy,
            self.config.conflict_resolution.fpc_rounds,
            self.config.conflict_resolution.fpc_threshold,
            now,
        );
        proof {
            old(self)@.ledger.graph.lemma_validated_stays(
                self.dag_ledger@.graph,
                round@.validated_transactions,
            );
        }
        self.current_round = Some(round);
        Ok(count)
    }

    /// Confirms every transaction of a list that can be confirmed, at time
    /// `now`.
    fn confirm_all(ledger: &mut AdvancedDAGLedger, ids: &Vec<u128>, now: u64)
        requires
            old(ledger).wf(),
        ensures
            final(ledger).wf(),
            final(ledger).config() == old(ledger).config(),
            final(ledger).metrics() == old(ledger).metrics(),
            old(ledger)@.graph.advances_to(final(ledger)@.graph),
            final(ledger)@.graph.nodes.len() == old(ledger)@.graph.nodes.len(),
            forall|i: int|
                0 <= i < old(ledger)@.graph.nodes.len()
                    ==> (#[trigger] final(ledger)@.graph.nodes[i]).transaction.status == old(ledger)@.graph.nodes[i].transaction.status
                    || final(ledger)@.graph.nodes[i].transaction.status == TransactionStatus::Confirmed,
            forall|k: int|
                0 <= k < ids@.len() && old(ledger)@.graph.contains(#[trigger] ids@[k])
                    && old(ledger)@.graph.status_of(ids@[k]) != TransactionStatus::Rejected
                    ==> final(ledger)@.graph.status_of(ids@[k]) == TransactionStatus::Confirmed,
            ids@.len() == 0 ==> final(ledger)@ == old(ledger)@,
            forall|i: int|
                0 <= i < old(ledger)@.graph.nodes.len() && !ids@.contains(
                    old(ledger)@.graph.id_at(i),
                ) ==> #[trigger] final(ledger)@.graph.nodes[i] == old(ledger)@.graph.nodes[i],
            final(ledger)@.graph == confirm_pass(
                old(ledger)@.graph,
                ids@,
                now,
                ids@.len() as int,
            ),
    {
        let ghost start = ledger@.graph;
        proof {
            start.lemma_advances(start, start);
        }
        let mut k: usize = 0;
        while k < ids.len()
            invariant
                k <= ids@.len(),
                ledger.wf(),
                ledger.config() == old(ledger).config(),
                ledger.metrics() == old(ledger).metrics(),
                start == old(ledger)@.graph,
                start.ids_unique(),
                start.advances_to(ledger@.graph),
                ledger@.graph.nodes.len() == start.nodes.len(),
                k == 0 ==> ledger@ == old(ledger)@,
                forall|i: int|
                    0 <= i < start.nodes.len() ==> (#[trigger] ledger@.graph.nodes[i]).transaction.status
                        == start.nodes[i].transaction.status
                        || ledger@.graph.nodes[i].transaction.status
                        == TransactionStatus::Confirmed,
                forall|m: int|
                    0 <= m < k && start.contains(#[trigger] ids@[m]) && start.status_of(ids@[m])
                        != TransactionStatus::Rejected ==> ledger@.graph.status_of(ids@[m])
                        == TransactionStatus::Confirmed,
                forall|i: int|
                    0 <= i < start.nodes.len() && !ids@.contains(start.id_at(i))
                        ==> #[trigger] ledger@.graph.nodes[i] == start.nodes[i],
                ledger@.graph == confirm_pass(start, ids@, now, k as int),
            decreases ids@.len() - k,
        {
            let id = ids[k];
            let ghost cur = ledger@.graph;
            let answer = ledger.confirm_transaction(id, now);
            proof {
                let next = ledger@.graph;
                start.lemma_advances(cur, next);
                if cur.contains(id) {
                    cur.lemma_contains(id);
                    let i = cur.index_of(id);
                    cur.lemma_moved_lookup(i, TransactionStatus::Confirmed, Some(now), id);
                    cur.lemma_moved_lookup(
                        i,
                        TransactionStatus::Confirmed,
                        cur.node(id).validated_at,
                        id,
                    );
                }
                assert forall|i: int| 0 <= i < start.nodes.len() implies (
                #[trigger] next.nodes[i]).transaction.status == start.nodes[i].transaction.status
                    || next.nodes[i].transaction.status == TransactionStatus::Confirmed by {
                    assert(cur.nodes[i].transaction.status == start.nodes[i].transaction.status
                        || cur.nodes[i].transaction.status == TransactionStatus::Confirmed);
                    if answer is Ok && cur.contains(id) && i != cur.index_of(id) {
                        assert(next.nodes[i] == cur.nodes[i]);
                    }
                }
                assert forall|i: int|
                    0 <= i < start.nodes.len() && !ids@.contains(
                        start.id_at(i),
                    ) implies #[trigger] next.nodes[i] == start.nodes[i] by {
                    assert(cur.nodes[i] == start.nodes[i]);
                    assert(ids@[k as int] == id);
                    if answer is Ok && cur.contains(id) {
                        assert(cur.id_at(i) != id);
                        assert(i != cur.index_of(id));
                        assert(next.nodes[i] == cur.nodes[i]);
                    }
                }
                assert forall|m: int|
                    0 <= m < k + 1 && start.contains(#[trigger] ids@[m]) && start.status_of(ids@[m])
                        != TransactionStatus::Rejected implies next.status_of(ids@[m])
                    == TransactionStatus::Confirmed by {
                    let x = ids@[m];
                    start.lemma_advances_keeps(cur, x);
                    start.lemma_advances_keeps(next, x);
                    cur.lemma_advances_keeps(next, x);
                    start.lemma_contains(x);
                    let i = start.index_of(x);
                    if m < k {
                        assert(cur.status_of(x) == TransactionStatus::Confirmed);
                    } else {
                        assert(cur.nodes[i].transaction.status
                            == start.nodes[i].transaction.status
                            || cur.nodes[i].transaction.status == TransactionStatus::Confirmed);
                        assert(cur.can_confirm(x));
                    }
                }
            }
            k += 1;
        }
    }

    /// Runs the last phase at time `now` and hands back the record of the
    /// closed round: what `finalizes` describes. The phase runs even after
    /// the end of the round's window.
    pub fn finalize_phase<V: VotingStrategy>(&mut self, strategy: &mut V, now: u64) -> (result:
        Result<AdvancedConsensusRound, SDUPIError>)
        requires
            old(self).wf(),
        ensures
            final(self).wf(),
            final(self).ledger_config() == old(self).ledger_config(),
            result is Ok <==> old(self).phase_refusal(ConsensusPhase::Finalize, now) is None,
            result matches Err(e) ==> e matches SDUPIError::Consensus(_),
            continues(old(strategy).cast(), final(strategy).cast()),
            result is Err ==> final(self)@ == old(self)@ && final(strategy).cast() == old(strategy).cast(),
            result matches Ok(record) ==> old(self)@.finalizes(
                final(self)@,
                record@,
                votes_since(old(strategy).cast(), final(strategy).cast()),
                now,
            ),
    {
        match self.admit_phase(ConsensusPhase::Finalize, now) {
            Err(e) => {
                return Err(e);
            },
            Ok(()) => {},
        }
        let mut slot: Option<AdvancedConsensusRound> = None;
        std::mem::swap(&mut self.current_round, &mut slot);
        let mut round = slot.unwrap();
        let ghost before = round@;
        let ghost start = self.dag_ledger@.graph;
        ConsensusEngine::confirm_all(&mut self.dag_ledger, &round.validated_transactions, now);
        let ghost middle = self.dag_ledger@.graph;
        let resolved = resolve_all(
            &mut self.dag_ledger,
            &mut round.conflicts,
            strategy,
            self.config.conflict_resolution.fpc_rounds,
            self.config.conflict_resolution.fpc_threshold,
            now,
        );
        proof {
            let last = self.dag_ledger@.graph;
            start.lemma_advances(middle, last);
            assert forall|k: int| 0 <= k < before.validated_transactions.len() implies last.contains(
                #[trigger] before.validated_transactions[k],
            ) && last.status_of(before.validated_transactions[k])
                == TransactionStatus::Confirmed by {
                let x = before.validated_transactions[k];
                assert(start.validated(x));
                start.lemma_advances_keeps(middle, x);
                middle.lemma_advances_keeps(last, x);
            }
            assert forall|i: int|
                0 <= i < start.nodes.len() && !before.validated_transactions.contains(
                    start.id_at(i),
                ) && !settled_candidate(
                    before.conflicts,
                    conflict_views(round.conflicts@),
                    start.id_at(i),
                ) implies #[trigger] last.nodes[i] == start.nodes[i] by {
                assert(middle.nodes[i] == start.nodes[i]);
                assert(middle.id_at(i) == start.id_at(i));
            }
        }
        let spent: u64 = if now >= round.start_time {
            now - round.start_time
        } else {
            0
        };
        let processed = round.validated_transactions.len();
        round.metrics.transactions_processed = processed;
        round.metrics.processing_time = spent;
        round.metrics.tps_achieved = calculate_tps(processed, spent);
        round.metrics.conflicts_resolved = resolved;
        self.performance_metrics.record_round(processed, spent);
        self.backlog = ConsensusEngine::copy_unresolved(&round.conflicts);
        self.transaction_batches = Vec::new();
        proof {
            assert(self@.batches =~= Seq::<BatchView>::empty());
            let closed = conflict_views(round.conflicts@);
            assert(old(self)@.open_conflicts() =~= before.conflicts);
            assert forall|k: int| 0 <= k < closed.len() implies (#[trigger] closed[k]).single() by {
                assert(before.conflicts[k].single());
            }
            lemma_unresolved_single(closed);
        }
        Ok(round)
    }
}

} // verus!
