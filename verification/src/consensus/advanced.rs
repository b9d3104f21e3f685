//! The engine with its pool of workers: it starts rounds and runs the
//! phases of a round in sequence.

use vstd::prelude::*;
use crate::ambient::{clock_reading, now_millis};
use crate::consensus::conflict::{Conflict, ConflictView};
use crate::dag::batch::BatchView;
use crate::consensus::engine::{
    lemma_results_listed, validated_in, ConsensusEngine, EngineView,
};
use crate::consensus::registry::{order_with, ValidatorStake};
use crate::consensus::resolver::{continues, votes_since, VotingStrategy};
use crate::consensus::round::{
    AIConsensusPredictor, AdvancedConsensusRound, ConsensusPhase, ConsensusResult,
    PerformanceMetrics, PrivacyProofVerifier, RoundView, ValidationWorker,
};
use crate::consensus::{AdvancedConsensusConfig, ConsensusAlgorithm};
use crate::dag::ledger::AdvancedDAGLedger;
use crate::crypto::PublicKey;
use crate::dag::model::Admission;
use crate::dag::priority::priority_score;
use crate::error::SDUPIError;
use crate::transaction::Transaction;

verus! {

/// An engine with a fixed pool of validation workers.
pub struct AdvancedConsensusEngine {
    engine: ConsensusEngine,
    validation_workers: Vec<ValidationWorker>,
    ai_predictor: AIConsensusPredictor,
    finished: Vec<AdvancedConsensusRound>,
}

impl AdvancedConsensusEngine {
    /// The engine inside.
    pub closed spec fn inner(&self) -> ConsensusEngine {
        self.engine
    }

    /// The workers of the pool.
    pub closed spec fn workers(&self) -> Seq<ValidationWorker> {
        self.validation_workers@
    }

    /// The records of the rounds that have been closed and not yet handed
    /// over, the oldest first.
    pub closed spec fn finished(&self) -> Seq<AdvancedConsensusRound> {
        self.finished@
    }

    /// The engine's invariant.
    pub open spec fn wf(&self) -> bool {
        self.inner().wf()
    }

    /// The algorithm whose phases are run: the configured one, or the one
    /// that the predictor chooses when the choice is left to it.
    pub closed spec fn chosen_algorithm(&self) -> ConsensusAlgorithm {
        if self.engine.config().algorithm == ConsensusAlgorithm::AIConsensus {
            AIConsensusPredictor::choice(self.ai_predictor.accuracy)
        } else {
            self.engine.config().algorithm
        }
    }

    /// Creates an engine around a ledger, with as many workers as the
    /// configuration says, numbered from 0.
    pub fn new(dag_ledger: AdvancedDAGLedger, config: AdvancedConsensusConfig) -> (engine:
        AdvancedConsensusEngine)
        requires
            dag_ledger.wf(),
            config.usable(),
        ensures
            engine.wf(),
            engine.inner().config() == config,
            engine.inner().ledger_config() == dag_ledger.config(),
            engine.inner()@ == (EngineView {
                ledger: dag_ledger@,
                validators: Map::<Seq<u8>, ValidatorStake>::empty(),
                validator_order: Seq::<Seq<u8>>::empty(),
                round: None,
                round_counter: 0,
                backlog: Seq::<ConflictView>::empty(),
                batches: Seq::<BatchView>::empty(),
                config,
                metrics: PerformanceMetrics::fresh(),
            }),
            engine.workers().len() == config.parallel_workers,
            forall|k: int| 0 <= k < engine.workers().len() ==> engine.workers()[k].worker_id == k,
            engine.finished().len() == 0,
    {
        let mut validation_workers: Vec<ValidationWorker> = Vec::new();
        let mut k: usize = 0;
        while k < config.parallel_workers
            invariant
                k <= config.parallel_workers,
                validation_workers@.len() == k,
                forall|m: int| 0 <= m < k ==> validation_workers@[m].worker_id == m,
            decreases config.parallel_workers - k,
        {
            validation_workers.push(ValidationWorker { worker_id: k });
            k += 1;
        }
        AdvancedConsensusEngine {
            engine: ConsensusEngine::new(dag_ledger, config),
            validation_workers,
            ai_predictor: AIConsensusPredictor::new(),
            finished: Vec::new(),
        }
    }

    /// The engine inside.
    pub fn engine(&self) -> (engine: &ConsensusEngine)
        ensures
            *engine == self.inner(),
    {
        &self.engine
    }

    /// The workers of the pool.
    pub fn validation_workers(&self) -> (workers: &Vec<ValidationWorker>)
        ensures
            workers@ == self.workers(),
    {
        &self.validation_workers
    }

    /// Takes a transaction into the ledger at time `now`. A conflict that the
    /// ledger detects is attached to the open round, or to the backlog when
    /// no round is open, and a copy of it is handed back.
    pub fn submit_transaction(&mut self, transaction: Transaction, now: u64) -> (result: Result<
        Option<Conflict>,
        SDUPIError,
    >)
        requires
            old(self).wf(),
        ensures
            final(self).wf(),
            final(self).inner().ledger_config() == old(self).inner().ledger_config(),
            final(self).workers() == old(self).workers(),
            final(self).finished() == old(self).finished(),
            final(self).inner()@.config == old(self).inner()@.config,
            final(self).inner()@.validators == old(self).inner()@.validators,
            final(self).inner()@.validator_order == old(self).inner()@.validator_order,
            final(self).inner()@.round_counter == old(self).inner()@.round_counter,
            final(self).inner()@.batches == old(self).inner()@.batches,
            final(self).inner()@.metrics == old(self).inner()@.metrics,
            (final(self).inner()@.round is Some) == (old(self).inner()@.round is Some),
            old(self).inner()@.ledger.graph.advances_to(final(self).inner()@.ledger.graph),
            match old(self).inner()@.ledger.graph.admission(transaction@) {
                Admission::Accepted => (result matches Ok(None)) && final(self).inner()@.ledger.graph == old(self).inner()@.ledger.graph.entered(
                    transaction@,
                    priority_score(
                        transaction@,
                        old(self).inner().ledger_config().priority_weights,
                        now,
                    ) as u128,
                ) && final(self).inner()@.open_conflicts() == old(self).inner()@.open_conflicts(),
                Admission::MissingParent => (result matches Ok(Some(c)) && Some(c@) == old(self).inner()@.ledger.graph.detect(transaction@, now) && final(self).inner()@.open_conflicts() == old(self).inner()@.open_conflicts().push(c@))
                    && final(self).inner()@.ledger == old(self).inner()@.ledger,
                Admission::DoubleSpend => (result matches Ok(Some(c)) && Some(c@) == old(self).inner()@.ledger.graph.detect(transaction@, now) && final(self).inner()@.open_conflicts() == old(self).inner()@.open_conflicts().push(c@))
                    && final(self).inner()@.ledger == old(self).inner()@.ledger,
                _ => result is Err && final(self).inner()@ == old(self).inner()@,
            },
    {
        self.engine.submit_transaction(transaction, now)
    }

    /// Registers a validator with a stake. A stake below the configured
    /// minimum is refused with an insufficient-stake error and creates no
    /// entry; otherwise the validator gets a fresh entry.
    pub fn register_validator(&mut self, public_key: PublicKey, stake_amount: u64) -> (result:
        Result<(), SDUPIError>)
        requires
            old(self).wf(),
        ensures
            final(self).wf(),
            final(self).inner().config() == old(self).inner().config(),
            final(self).workers() == old(self).workers(),
            final(self).finished() == old(self).finished(),
            result is Ok <==> stake_amount >= old(self).inner().config().min_stake,
            result is Ok ==> final(self).inner()@ == (EngineView {
                validators: old(self).inner()@.validators.insert(
                    public_key@,
                    ValidatorStake::fresh(public_key, stake_amount),
                ),
                validator_order: order_with(
                    old(self).inner()@.validators,
                    old(self).inner()@.validator_order,
                    public_key@,
                ),
                ..old(self).inner()@
            }),
            result is Err ==> final(self).inner()@ == old(self).inner()@,
            result matches Err(e) ==> e matches SDUPIError::InsufficientStake(_),
    {
        self.engine.register_validator(public_key, stake_amount)
    }

    /// Starts a round at time `now`: what `starts_round` describes of the
    /// engine inside. The round opens in its first phase.
    pub fn start_advanced_round_at(&mut self, now: u64) -> (result: Result<(), SDUPIError>)
        requires
            old(self).wf(),
        ensures
            final(self).wf(),
            final(self).inner().ledger_config() == old(self).inner().ledger_config(),
            final(self).workers() == old(self).workers(),
            final(self).finished() == old(self).finished(),
            old(self).inner()@.starts_round(final(self).inner()@, result, now),
    {
        self.engine.start_round_at(now)
    }

    /// Starts a round at the current time: what `starts_round` describes of
    /// the engine inside for the reading of the clock.
    ///
    /// Whatever the clock reads: without an open round the call succeeds,
    /// unless the round counter is at its largest value or the configured
    /// duration leaves the range of the clock; with the counter at its
    /// largest value it fails.
    pub fn start_advanced_round(&mut self) -> (result: Result<(), SDUPIError>)
        requires
            old(self).wf(),
        ensures
            final(self).wf(),
            final(self).inner().ledger_config() == old(self).inner().ledger_config(),
            final(self).workers() == old(self).workers(),
            final(self).finished() == old(self).finished(),
            exists|now: u64|
                clock_reading(now) && #[trigger] old(self).inner()@.starts_round(
                    final(self).inner()@,
                    result,
                    now,
                ),
            old(self).inner()@.round is None && old(self).inner()@.round_counter < u64::MAX && old(
                self,
            ).inner().config().round_duration <= 0x8000_0000_0000_0000 ==> result is Ok,
            old(self).inner()@.round_counter == u64::MAX ==> result is Err,
            result matches Err(e) ==> e matches SDUPIError::Consensus(_),
            result is Err ==> final(self).inner()@ == old(self).inner()@,
            result is Ok ==> final(self).inner()@.round_counter == old(self).inner()@.round_counter + 1,
    {
        let now = now_millis();
        self.start_advanced_round_at(now)
    }

    /// The algorithm whose phases are run.
    pub fn algorithm(&self) -> (algorithm: ConsensusAlgorithm)
        ensures
            algorithm == self.chosen_algorithm(),
    {
        let configured = self.engine.configured_algorithm();
        if configured == ConsensusAlgorithm::AIConsensus {
            self.ai_predictor.predict_optimal_consensus()
        } else {
            configured
        }
    }

    /// The values of the records of the rounds that have been closed and
    /// not yet handed over, the oldest first.
    pub open spec fn finished_views(&self) -> Seq<RoundView> {
        Seq::new(self.finished().len(), |k: int| self.finished()[k]@)
    }

    /// Whether a run of one phase at `now`, with the votes `votes` cast in
    /// it, leads from the engine `before` to the engine `after` and closes
    /// the rounds `closed`: the first phase cuts the pending queue into
    /// batches, the second deals them, the third takes in the transactions
    /// of the batches that pass validation, and the last closes the round,
    /// whose record is the one round closed. Votes are cast in the last
    /// phase only.
    pub open spec fn runs_phase<P: PrivacyProofVerifier>(
        before: EngineView,
        after: EngineView,
        closed: Seq<RoundView>,
        votes: Seq<(u128, bool)>,
        phase: ConsensusPhase,
        verifier: &P,
        now: u64,
    ) -> bool {
        match phase {
            ConsensusPhase::PrePrepare => before.pre_prepares(after, now) && closed.len() == 0
                && votes.len() == 0,
            ConsensusPhase::Prepare => before.prepares(after) && closed.len() == 0 && votes.len()
                == 0,
            ConsensusPhase::Commit => before.commits(
                after,
                validated_in(verifier, before.batches, before.batches.len() as int),
                now,
            ) && closed.len() == 0 && votes.len() == 0,
            ConsensusPhase::Finalize => closed.len() == 1 && before.finalizes(
                after,
                closed[0],
                votes,
                now,
            ),
        }
    }

    /// Runs one phase of the open round at time `now`: what `runs_phase`
    /// describes. The phases run in their order only, and all but the last
    /// within the round's window; else the call is refused with a consensus
    /// error and changes nothing. The record of a round that the last phase
    /// closes joins the finished rounds.
    pub fn execute_phase<P: PrivacyProofVerifier, V: VotingStrategy>(
        &mut self,
        phase: ConsensusPhase,
        verifier: &P,
        strategy: &mut V,
        now: u64,
    ) -> (result: Result<(), SDUPIError>)
        requires
            old(self).wf(),
        ensures
            final(self).wf(),
            final(self).inner().ledger_config() == old(self).inner().ledger_config(),
            final(self).workers() == old(self).workers(),
            result is Ok <==> old(self).inner().phase_refusal(phase, now) is None,
            result matches Err(e) ==> e matches SDUPIError::Consensus(_),
            continues(old(strategy).cast(), final(strategy).cast()),
            result is Err ==> final(self).inner()@ == old(self).inner()@ && final(self).finished()
                == old(self).finished() && final(strategy).cast() == old(strategy).cast(),
            result is Ok ==> final(self).finished().len() >= old(self).finished().len()
                && final(self).finished().subrange(0, old(self).finished().len() as int) == old(
                self,
            ).finished() && AdvancedConsensusEngine::runs_phase(
                old(self).inner()@,
                final(self).inner()@,
                final(self).finished_views().subrange(
                    old(self).finished().len() as int,
                    final(self).finished().len() as int,
                ),
                votes_since(old(strategy).cast(), final(strategy).cast()),
                phase,
                verifier,
                now,
            ),
    {
        let ghost records = self.finished@;
        proof {
            assert(records.subrange(0, records.len() as int) =~= records);
        }
        match phase {
            ConsensusPhase::PrePrepare => self.engine.pre_prepare_phase(now),
            ConsensusPhase::Prepare => {
                match self.engine.prepare_phase(now) {
                    Ok(_) => Ok(()),
                    Err(e) => Err(e),
                }
            },
            ConsensusPhase::Commit => {
                let plan = self.engine.deal_batches();
                let results = self.engine.run_workers(&plan, verifier);
                proof {
                    lemma_results_listed(
                        verifier,
                        self.engine@.batches,
                        results@,
                        results@.len() as int,
                    );
                }
                match self.engine.commit_phase(&results, now) {
                    Ok(_) => Ok(()),
                    Err(e) => Err(e),
                }
            },
            ConsensusPhase::Finalize => {
                match self.engine.finalize_phase(strategy, now) {
                    Ok(record) => {
                        let ghost value = record@;
                        self.finished.push(record);
                        proof {
                            assert(self.finished@.subrange(0, records.len() as int) =~= records);
                            let closed = self.finished_views().subrange(
                                records.len() as int,
                                self.finished@.len() as int,
                            );
                            assert(closed[0] == value);
                        }
                        Ok(())
                    },
                    Err(e) => Err(e),
                }
            },
        }
    }

    /// Whether a run of the four phases at `now` leads from the engine
    /// `before` to the engine `after` and the record `record` of the closed
    /// round: the pending queue is cut into batches, the batches are dealt,
    /// the transactions of the batches that pass validation are taken in,
    /// and the round is closed.
    pub open spec fn runs_round<P: PrivacyProofVerifier>(
        before: EngineView,
        after: EngineView,
        record: RoundView,
        votes: Seq<(u128, bool)>,
        verifier: &P,
        now: u64,
    ) -> bool {
        exists|cut: EngineView, taken: EngineView|
            #![trigger before.pre_prepares(cut, now), taken.finalizes(after, record, votes, now)]
            before.pre_prepares(cut, now) && cut.in_phase(ConsensusPhase::Commit).commits(
                taken,
                validated_in(verifier, cut.batches, cut.batches.len() as int),
                now,
            ) && taken.finalizes(after, record, votes, now)
    }

    /// The report on a closed round.
    pub open spec fn report(record: RoundView) -> ConsensusResult {
        ConsensusResult {
            success: true,
            round_number: record.round_number,
            transactions_processed: record.metrics.transactions_processed,
            execution_time: record.metrics.processing_time,
            tps_achieved: record.metrics.tps_achieved,
        }
    }

    /// Whether a run of the consensus at `now` leads from the engine
    /// `before` to the engine `after` with the answer `result`, and closes
    /// the rounds `closed`.
    ///
    /// The round must be in its first phase and `now` must lie in its
    /// window; else the call is refused with a consensus error and changes
    /// nothing. Otherwise the four phases run, the record of the round is
    /// the one round closed, and the answer reports its measurements.
    pub open spec fn runs_consensus<P: PrivacyProofVerifier>(
        before: EngineView,
        after: EngineView,
        closed: Seq<RoundView>,
        votes: Seq<(u128, bool)>,
        result: Result<ConsensusResult, SDUPIError>,
        verifier: &P,
        now: u64,
    ) -> bool {
        match before.phase_refusal(ConsensusPhase::PrePrepare, now) {
            Some(_) => (result matches Err(SDUPIError::Consensus(_))) && after == before
                && closed.len() == 0 && votes.len() == 0,
            None => closed.len() == 1 && result == Ok::<ConsensusResult, SDUPIError>(
                AdvancedConsensusEngine::report(closed[0]),
            ) && AdvancedConsensusEngine::runs_round(
                before,
                after,
                closed[0],
                votes,
                verifier,
                now,
            ),
        }
    }

    /// Runs the four phases of the open round in sequence, at time `now`:
    /// what `runs_consensus` describes. Every algorithm runs this sequence.
    /// The record of the closed round joins the finished rounds.
    ///
    /// The outcome of the votes on conflicts is open. Whatever it is: the
    /// round is closed, every transaction validated in it is confirmed, and
    /// the graph has only advanced.
    pub fn execute_advanced_consensus_at<P: PrivacyProofVerifier, V: VotingStrategy>(
        &mut self,
        verifier: &P,
        strategy: &mut V,
        now: u64,
    ) -> (result: Result<ConsensusResult, SDUPIError>)
        requires
            old(self).wf(),
        ensures
            final(self).wf(),
            final(self).inner().ledger_config() == old(self).inner().ledger_config(),
            final(self).workers() == old(self).workers(),
            final(self).finished().len() >= old(self).finished().len(),
            final(self).finished().subrange(0, old(self).finished().len() as int) == old(
                self,
            ).finished(),
            continues(old(strategy).cast(), final(strategy).cast()),
            AdvancedConsensusEngine::runs_consensus(
                old(self).inner()@,
                final(self).inner()@,
                final(self).finished_views().subrange(
                    old(self).finished().len() as int,
                    final(self).finished().len() as int,
                ),
                votes_since(old(strategy).cast(), final(strategy).cast()),
                result,
                verifier,
                now,
            ),
            result is Ok ==> old(self).inner()@.ledger.graph.advances_to(
                final(self).inner()@.ledger.graph,
            ),
    {
        let ghost records = self.finished@;
        let ghost before = self.engine@;
        let ghost account = strategy.cast();
        proof {
            assert(records.subrange(0, records.len() as int) =~= records);
        }
        match self.engine.pre_prepare_phase(now) {
            Err(e) => {
                return Err(e);
            },
            Ok(()) => {},
        }
        let ghost cut = self.engine@;
        let plan = match self.engine.prepare_phase(now) {
            Ok(plan) => plan,
            Err(e) => {
                assert(false);
                return Err(e);
            },
        };
        let results = self.engine.run_workers(&plan, verifier);
        proof {
            lemma_results_listed(verifier, self.engine@.batches, results@, results@.len() as int);
            assert(self.engine@ == cut.in_phase(ConsensusPhase::Commit));
        }
        match self.engine.commit_phase(&results, now) {
            Ok(_) => {},
            Err(e) => {
                assert(false);
                return Err(e);
            },
        }
        let ghost taken = self.engine@;
        let record = match self.engine.finalize_phase(strategy, now) {
            Ok(record) => record,
            Err(e) => {
                assert(false);
                return Err(e);
            },
        };
        let ghost value = record@;
        proof {
            let g0 = before.ledger.graph;
            let g3 = taken.ledger.graph;
            let g4 = self.engine@.ledger.graph;
            g0.lemma_advances(g3, g4);
            assert(before.pre_prepares(cut, now));
            let votes = votes_since(account, strategy.cast());
            assert(taken.finalizes(self.engine@, value, votes, now));
            assert(AdvancedConsensusEngine::runs_round(
                before,
                self.engine@,
                value,
                votes,
                verifier,
                now,
            ));
        }
        let outcome = ConsensusResult {
            success: true,
            round_number: record.round_number,
            transactions_processed: record.metrics.transactions_processed,
            execution_time: record.metrics.processing_time,
            tps_achieved: record.metrics.tps_achieved,
        };
        self.finished.push(record);
        proof {
            assert(self.finished@.subrange(0, records.len() as int) =~= records);
            let closed = self.finished_views().subrange(
                records.len() as int,
                self.finished@.len() as int,
            );
            assert(closed[0] == value);
        }
        Ok(outcome)
    }

    /// Runs the four phases of the open round in sequence, at the current
    /// time: what `runs_consensus` describes for the reading of the clock.
    /// Whatever the clock reads, the call fails without an open round and
    /// when the round is not in its first phase.
    pub fn execute_advanced_consensus<P: PrivacyProofVerifier, V: VotingStrategy>(
        &mut self,
        verifier: &P,
        strategy: &mut V,
    ) -> (result: Result<ConsensusResult, SDUPIError>)
        requires
            old(self).wf(),
        ensures
            final(self).wf(),
            final(self).inner().ledger_config() == old(self).inner().ledger_config(),
            final(self).workers() == old(self).workers(),
            final(self).finished().len() >= old(self).finished().len(),
            final(self).finished().subrange(0, old(self).finished().len() as int) == old(
                self,
            ).finished(),
            continues(old(strategy).cast(), final(strategy).cast()),
            exists|now: u64|
                clock_reading(now) && #[trigger] AdvancedConsensusEngine::runs_consensus(
                    old(self).inner()@,
                    final(self).inner()@,
                    final(self).finished_views().subrange(
                        old(self).finished().len() as int,
                        final(self).finished().len() as int,
                    ),
                    votes_since(old(strategy).cast(), final(strategy).cast()),
                    result,
                    verifier,
                    now,
                ),
            old(self).inner()@.round is None ==> result is Err,
            (old(self).inner()@.round matches Some(round) && round.phase
                != ConsensusPhase::PrePrepare) ==> result is Err,
            result matches Err(e) ==> e matches SDUPIError::Consensus(_),
            result is Err ==> final(self).inner()@ == old(self).inner()@ && final(self).finished()
                == old(self).finished(),
            result matches Ok(outcome) ==> outcome.success && final(self).inner()@.round is None
                && final(self).finished().len() == old(self).finished().len() + 1
                    && old(self).inner()@.ledger.graph.advances_to(final(self).inner()@.ledger.graph),
    {
        let now = now_millis();
        self.execute_advanced_consensus_at(verifier, strategy, now)
    }

    /// Hands over the records of the closed rounds, the oldest first, and
    /// forgets them.
    pub fn take_finished_rounds(&mut self) -> (records: Vec<AdvancedConsensusRound>)
        ensures
            records@ == old(self).finished(),
            final(self).finished().len() == 0,
            final(self).inner() == old(self).inner(),
            final(self).workers() == old(self).workers(),
    {
        let mut records: Vec<AdvancedConsensusRound> = Vec::new();
        std::mem::swap(&mut self.finished, &mut records);
        records
    }

    /// The engine's measurements.
    pub fn get_performance_metrics(&self) -> (result: Result<PerformanceMetrics, SDUPIError>)
        ensures
            result == Ok::<PerformanceMetrics, SDUPIError>(self.inner()@.metrics),
    {
        self.engine.get_performance_metrics()
    }
}

} // verus!
