//! What the ledger keeps beside the graph: a pool of memory blocks, a count
//! of transaction patterns, an estimator of conflicts, and measurements.

use vstd::prelude::*;
use std::collections::VecDeque;
use vstd::utf8::encode_utf8;
use crate::crypto::{hex_string, hex_text};
use crate::dag::batch::TransactionBatch;
use crate::dag::priority::{age_in_seconds, age_seconds, conflict_probability, conflict_probability_of};
use crate::registry::{copy_bytes, Registry};
use crate::text::{decimal_digits, decimal_string};
use crate::transaction::{Transaction, TransactionView};

verus! {

/// A pool of memory blocks of one size.
#[derive(Debug)]
pub struct MemoryPool {
    available_blocks: VecDeque<Vec<u8>>,
    block_size: usize,
    total_blocks: usize,
    used_blocks: usize,
}

/// A block of `size` zero bytes.
pub open spec fn zero_block(size: nat) -> Seq<u8> {
    Seq::new(size, |i: int| 0u8)
}

impl MemoryPool {
    /// The blocks that can be handed out, the next one first.
    pub closed spec fn blocks(&self) -> Seq<Seq<u8>> {
        Seq::new(self.available_blocks@.len(), |i: int| self.available_blocks@[i]@)
    }

    /// Number of blocks that can be handed out.
    pub open spec fn available(&self) -> nat {
        self.blocks().len()
    }

    /// Size of a block in bytes.
    pub closed spec fn spec_block_size(&self) -> usize {
        self.block_size
    }

    /// Number of blocks that the pool was made with.
    pub closed spec fn spec_total_blocks(&self) -> usize {
        self.total_blocks
    }

    /// Number of blocks that are handed out.
    pub closed spec fn spec_used_blocks(&self) -> usize {
        self.used_blocks
    }

    /// Every block is either available or handed out, and every available
    /// block has the pool's block size.
    pub open spec fn wf(&self) -> bool {
        &&& self.available() + self.spec_used_blocks() == self.spec_total_blocks()
        &&& forall|i: int|
            0 <= i < self.blocks().len() ==> (#[trigger] self.blocks()[i]).len()
                == self.spec_block_size()
    }

    /// Creates a pool of as many blocks of `block_size` zero bytes as fit
    /// into `pool_size` bytes.
    pub fn new(pool_size: usize, block_size: usize) -> (pool: MemoryPool)
        requires
            block_size > 0,
        ensures
            pool.wf(),
            pool.spec_block_size() == block_size,
            pool.spec_total_blocks() == pool_size / block_size,
            pool.spec_used_blocks() == 0,
            pool.blocks() == Seq::new(
                (pool_size / block_size) as nat,
                |i: int| zero_block(block_size as nat),
            ),
    {
        let total_blocks = pool_size / block_size;
        let mut available_blocks: VecDeque<Vec<u8>> = VecDeque::new();
        let mut i: usize = 0;
        while i < total_blocks
            invariant
                i <= total_blocks,
                available_blocks@.len() == i,
                forall|k: int|
                    0 <= k < i ==> (#[trigger] available_blocks@[k])@ == zero_block(
                        block_size as nat,
                    ),
            decreases total_blocks - i,
        {
            let block = vec![0u8; block_size];
            assert(block@ =~= zero_block(block_size as nat));
            available_blocks.push_back(block);
            i += 1;
        }
        let pool = MemoryPool { available_blocks, block_size, total_blocks, used_blocks: 0 };
        assert(pool.blocks() =~= Seq::new(
            (pool_size / block_size) as nat,
            |i: int| zero_block(block_size as nat),
        ));
        pool
    }

    /// Size of a block in bytes.
    pub fn block_size(&self) -> (size: usize)
        ensures
            size == self.spec_block_size(),
    {
        self.block_size
    }

    /// Number of blocks that the pool was made with.
    pub fn total_blocks(&self) -> (total: usize)
        ensures
            total == self.spec_total_blocks(),
    {
        self.total_blocks
    }

    /// Number of blocks that are handed out.
    pub fn used_blocks(&self) -> (used: usize)
        ensures
            used == self.spec_used_blocks(),
    {
        self.used_blocks
    }

    /// Whether the pool becomes `after` when it is asked for a block and
    /// answers with `block`: the next available block, if there is one,
    /// leaves the pool and counts as handed out; a pool without available
    /// blocks stays as it is.
    pub open spec fn hands_out(&self, after: MemoryPool, block: Option<Seq<u8>>) -> bool {
        &&& after.spec_block_size() == self.spec_block_size()
        &&& after.spec_total_blocks() == self.spec_total_blocks()
        &&& if self.available() > 0 {
            block == Some(self.blocks()[0]) && after.blocks() == self.blocks().remove(0)
                && after.spec_used_blocks() == self.spec_used_blocks() + 1
        } else {
            block is None && after.blocks() == self.blocks() && after.spec_used_blocks()
                == self.spec_used_blocks()
        }
    }

    /// Hands out the next available block, if there is one: a block of
    /// the pool's block size, with the bytes that it was given back with, or
    /// zero bytes if it was never handed out.
    pub fn allocate(&mut self) -> (block: Option<Vec<u8>>)
        requires
            old(self).wf(),
        ensures
            final(self).wf(),
            block is Some <==> old(self).available() > 0,
            block matches Some(b) ==> b@.len() == old(self).spec_block_size(),
            old(self).hands_out(
                *final(self),
                match block {
                    Some(b) => Some(b@),
                    None => None,
                },
            ),
    {
        if self.available_blocks.len() == 0 {
            return None;
        }
        assert(old(self).blocks()[0].len() == self.block_size);
        match self.available_blocks.pop_front() {
            Some(block) => {
                self.used_blocks = self.used_blocks + 1;
                proof {
                    assert(self.blocks() =~= old(self).blocks().remove(0));
                }
                Some(block)
            },
            None => None,
        }
    }

    /// Whether the pool takes a block back: it has the pool's block size
    /// and a block is handed out.
    pub open spec fn takes_back(&self, block: Seq<u8>) -> bool {
        block.len() == self.spec_block_size() && self.spec_used_blocks() > 0
    }

    /// Whether the pool becomes `after` when it is given a block: one that
    /// it takes back is the last to be handed out again, and one block less
    /// counts as handed out; any other block is let go.
    pub open spec fn takes_in(&self, after: MemoryPool, block: Seq<u8>) -> bool {
        &&& after.spec_block_size() == self.spec_block_size()
        &&& after.spec_total_blocks() == self.spec_total_blocks()
        &&& if self.takes_back(block) {
            after.blocks() == self.blocks().push(block) && after.spec_used_blocks()
                == self.spec_used_blocks() - 1
        } else {
            after.blocks() == self.blocks() && after.spec_used_blocks() == self.spec_used_blocks()
        }
    }

    /// A block that is handed out and given back restores the pool: as many
    /// blocks are handed out and available as before, and the block is the
    /// last to be handed out again.
    pub proof fn law_block_given_back(
        before: MemoryPool,
        between: MemoryPool,
        after: MemoryPool,
        block: Seq<u8>,
    )
        requires
            before.wf(),
            before.hands_out(between, Some(block)),
            between.takes_in(after, block),
        ensures
            after.wf(),
            after.spec_used_blocks() == before.spec_used_blocks(),
            after.available() == before.available(),
            after.spec_utilization() == before.spec_utilization(),
            after.blocks() == before.blocks().remove(0).push(block),
    {
        assert(before.available() > 0);
        assert(block.len() == before.spec_block_size());
        assert(between.takes_back(block));
        assert forall|i: int| 0 <= i < after.blocks().len() implies (#[trigger] after.blocks()[i]).len()
            == after.spec_block_size() by {
            if i < between.blocks().len() {
                assert(after.blocks()[i] == before.blocks()[i + 1]);
            }
        }
    }

    /// Takes a block back, if it has the pool's block size and a block is
    /// handed out: it is the last to be handed out again. Any other block is
    /// let go.
    pub fn deallocate(&mut self, block: Vec<u8>)
        requires
            old(self).wf(),
        ensures
            final(self).wf(),
            old(self).takes_in(*final(self), block@),
    {
        if block.len() == self.block_size && self.used_blocks > 0 {
            let ghost bytes = block@;
            self.available_blocks.push_back(block);
            self.used_blocks = self.used_blocks - 1;
            proof {
                assert(self.blocks() =~= old(self).blocks().push(bytes));
            }
        }
    }

    /// The share of the blocks that is handed out, in thousandths; 0 for a
    /// pool without blocks.
    pub open spec fn spec_utilization(&self) -> nat {
        if self.spec_total_blocks() == 0 {
            0
        } else {
            (self.spec_used_blocks() * 1000 / (self.spec_total_blocks() as int)) as nat
        }
    }

    /// The share of the blocks that is handed out, in thousandths.
    pub fn utilization(&self) -> (share: u64)
        requires
            self.wf(),
        ensures
            share == self.spec_utilization(),
            share <= 1000,
    {
        if self.total_blocks == 0 {
            return 0;
        }
        let used: u128 = self.used_blocks as u128 * 1000;
        let share: u128 = used / self.total_blocks as u128;
        assert(share <= 1000) by (nonlinear_arith)
            requires
                share == (self.used_blocks * 1000) / (self.total_blocks as int),
                self.used_blocks <= self.total_blocks,
                self.total_blocks > 0,
        ;
        share as u64
    }
}

/// What is known of a pattern of transactions. The success rate is in
/// thousandths, times are in milliseconds.
#[derive(Debug)]
pub struct PatternData {
    pub pattern_id: String,
    pub transaction_count: usize,
    pub avg_processing_time: u64,
    pub success_rate: u64,
    pub last_accessed: u64,
}

/// The pattern of a transaction: the first eight hexadecimal digits of its
/// sender, its amount and its fee, joined by underscores.
pub open spec fn pattern_of(t: TransactionView) -> Seq<char> {
    hex_text(t.sender.subrange(0, 4)) + "_"@ + decimal_digits(t.amount as nat) + "_"@
        + decimal_digits(t.fee as nat)
}

/// Computes the pattern of a transaction.
pub fn extract_transaction_pattern(transaction: &Transaction) -> (pattern: String)
    ensures
        pattern@ == pattern_of(transaction@),
{
    let sender = transaction.sender.to_bytes();
    proof {
        transaction.sender.lemma_length();
    }
    let mut prefix: Vec<u8> = Vec::new();
    prefix.push(sender[0]);
    prefix.push(sender[1]);
    prefix.push(sender[2]);
    prefix.push(sender[3]);
    assert(prefix@ =~= transaction@.sender.subrange(0, 4));
    let head = hex_string(prefix.as_slice());
    let amount = decimal_string(transaction.amount);
    let fee = decimal_string(transaction.fee);
    head.concat("_").concat(amount.as_str()).concat("_").concat(fee.as_str())
}

/// Counts of the patterns of the transactions seen. Rates are in
/// thousandths.
#[derive(Debug)]
pub struct PredictiveCache {
    patterns: Registry<PatternData>,
    cache_hits: u64,
    cache_misses: u64,
    prediction_accuracy: u64,
}

impl PredictiveCache {
    /// What is known of each pattern, by the bytes of the pattern.
    pub closed spec fn patterns(&self) -> Map<Seq<u8>, PatternData> {
        self.patterns@
    }

    /// The cache's invariant.
    pub closed spec fn wf(&self) -> bool {
        self.patterns.wf()
    }

    /// Number of hits.
    pub closed spec fn hits(&self) -> u64 {
        self.cache_hits
    }

    /// Number of misses.
    pub closed spec fn misses(&self) -> u64 {
        self.cache_misses
    }

    /// How often a pattern has been seen.
    pub open spec fn seen(&self, pattern: Seq<char>) -> nat {
        if self.patterns().contains_key(encode_utf8(pattern)) {
            self.patterns()[encode_utf8(pattern)].transaction_count as nat
        } else {
            0
        }
    }

    /// Creates an empty cache.
    pub fn new() -> (cache: PredictiveCache)
        ensures
            cache.wf(),
            cache.patterns() == Map::<Seq<u8>, PatternData>::empty(),
            cache.hits() == 0,
            cache.misses() == 0,
    {
        PredictiveCache {
            patterns: Registry::new(),
            cache_hits: 0,
            cache_misses: 0,
            prediction_accuracy: 850,
        }
    }

    /// Counts one more transaction of a pattern, seen at time `now`. The
    /// count of a pattern stops at the largest number it can hold.
    pub fn record(&mut self, pattern: String, now: u64)
        requires
            old(self).wf(),
        ensures
            final(self).wf(),
            final(self).hits() == old(self).hits(),
            final(self).misses() == old(self).misses(),
            final(self).patterns().contains_key(encode_utf8(pattern@)),
            final(self).seen(pattern@) == (if old(self).seen(pattern@) == usize::MAX {
                usize::MAX as nat
            } else {
                old(self).seen(pattern@) + 1
            }),
            final(self).patterns()[encode_utf8(pattern@)].last_accessed == now,
            forall|other: Seq<u8>|
                other != encode_utf8(pattern@) ==> (#[trigger] final(self).patterns().contains_key(
                    other,
                ) == old(self).patterns().contains_key(other))
                    && (old(self).patterns().contains_key(other)
                    ==> final(self).patterns()[other] == old(self).patterns()[other]),
    {
        let key = copy_bytes(pattern.as_str().as_bytes());
        let entry = match self.patterns.get(key.as_slice()) {
            Some(known) => PatternData {
                pattern_id: pattern,
                transaction_count: if known.transaction_count == usize::MAX {
                    usize::MAX
                } else {
                    known.transaction_count + 1
                },
                avg_processing_time: known.avg_processing_time,
                success_rate: known.success_rate,
                last_accessed: now,
            },
            None => PatternData {
                pattern_id: pattern,
                transaction_count: 1,
                avg_processing_time: 0,
                success_rate: 1000,
                last_accessed: now,
            },
        };
        self.patterns.insert(key, entry);
    }

    /// The share of hits among hits and misses, in thousandths; nothing when
    /// there were neither.
    pub open spec fn spec_hit_rate(&self) -> Option<nat> {
        if self.hits() + self.misses() == 0 {
            None
        } else {
            Some((self.hits() * 1000 / (self.hits() + self.misses())) as nat)
        }
    }

    /// The share of hits among hits and misses, in thousandths.
    pub fn hit_rate(&self) -> (rate: Option<u64>)
        ensures
            rate is Some <==> self.spec_hit_rate() is Some,
            rate matches Some(r) ==> Some(r as nat) == self.spec_hit_rate() && r <= 1000,
    {
        let total: u128 = self.cache_hits as u128 + self.cache_misses as u128;
        if total == 0 {
            return None;
        }
        let scaled: u128 = self.cache_hits as u128 * 1000;
        let rate: u128 = scaled / total;
        assert(rate <= 1000) by (nonlinear_arith)
            requires
                rate == (self.cache_hits * 1000) / (total as int),
                self.cache_hits <= total,
                total > 0,
        ;
        Some(rate as u64)
    }
}

/// The model behind the estimator of conflicts.
#[derive(Debug)]
pub struct ConflictPredictionModel {
    pub model_type: String,
    /// When the model last changed, in milliseconds since the Unix epoch.
    pub last_updated: u64,
}

/// What is known of conflicts of a pattern. Rates are in thousandths.
#[derive(Debug)]
pub struct ConflictData {
    pub pattern: String,
    /// Chance of a conflict in millionths.
    pub conflict_probability: u64,
    /// Duration of the resolution in milliseconds.
    pub resolution_time: u64,
    pub success_rate: u64,
}

/// Estimates the chance that a transaction meets a conflict.
#[derive(Debug)]
pub struct AIConflictPredictor {
    pub model: ConflictPredictionModel,
    pub training_data: Vec<ConflictData>,
    /// Accuracy of the model in thousandths.
    pub accuracy: u64,
}

impl AIConflictPredictor {
    /// An estimator whose model was made at time `now`.
    pub fn new_at(now: u64) -> (predictor: AIConflictPredictor)
        ensures
            predictor.model.model_type@ == "neural_network"@,
            predictor.model.last_updated == now,
            predictor.training_data@.len() == 0,
            predictor.accuracy == 880,
    {
        AIConflictPredictor {
            model: ConflictPredictionModel {
                model_type: String::from_str("neural_network"),
                last_updated: now,
            },
            training_data: Vec::new(),
            accuracy: 880,
        }
    }

    /// An estimator whose model is made now.
    pub fn new() -> (predictor: AIConflictPredictor)
        ensures
            predictor.model.model_type@ == "neural_network"@,
            predictor.training_data@.len() == 0,
            predictor.accuracy == 880,
            crate::ambient::clock_reading(predictor.model.last_updated),
    {
        AIConflictPredictor::new_at(crate::ambient::now_millis())
    }

    /// The chance, in millionths, that a transaction meets a conflict, as
    /// seen at time `now`: a tenth, divided by the fee and by the age in
    /// seconds, each counted from one.
    pub fn predict_conflict_at(&self, transaction: &Transaction, now: u64) -> (chance: u64)
        ensures
            chance == conflict_probability(
                transaction.fee,
                age_seconds(transaction.timestamp, now),
            ),
            chance <= 100_000,
    {
        conflict_probability_of(transaction.fee, age_in_seconds(transaction.timestamp, now))
    }

    /// The chance, in millionths, that a transaction meets a conflict, as
    /// seen now: the chance as seen at the time the clock shows, whatever
    /// that time is.
    pub fn predict_conflict(&self, transaction: &Transaction) -> (chance: u64)
        ensures
            exists|now: u64|
                chance == #[trigger] conflict_probability(
                    transaction.fee,
                    age_seconds(transaction.timestamp, now),
                ),
            chance <= 100_000,
    {
        let now = crate::ambient::now_millis();
        let chance = self.predict_conflict_at(transaction, now);
        assert(chance == conflict_probability(
            transaction.fee,
            age_seconds(transaction.timestamp, now),
        ));
        chance
    }
}

/// Measurements of the ledger. Times are in milliseconds, rates in
/// thousandths.
#[derive(Debug, Clone, Copy, PartialEq, Eq, Structural)]
pub struct DAGPerformanceMetrics {
    pub total_transactions: u64,
    /// Transactions per second at the last measurement.
    pub current_tps: u64,
    pub peak_tps: u64,
    pub avg_processing_time: u64,
    pub memory_utilization: u64,
    pub cache_hit_rate: u64,
    pub parallel_efficiency: u64,
}

impl Default for DAGPerformanceMetrics {
    fn default() -> (m: DAGPerformanceMetrics)
        ensures
            m == (DAGPerformanceMetrics {
                total_transactions: 0,
                current_tps: 0,
                peak_tps: 0,
                avg_processing_time: 0,
                memory_utilization: 0,
                cache_hit_rate: 0,
                parallel_efficiency: 1000,
            }),
    {
        DAGPerformanceMetrics {
            total_transactions: 0,
            current_tps: 0,
            peak_tps: 0,
            avg_processing_time: 0,
            memory_utilization: 0,
            cache_hit_rate: 0,
            parallel_efficiency: 1000,
        }
    }
}

impl DAGPerformanceMetrics {
    /// The measurements after an operation that took `processing_time`
    /// milliseconds, with the pool's utilization and the cache's hit rate at
    /// that moment. The count of operations stops at the largest 64-bit
    /// number; an operation that took no time counts as one millisecond for
    /// the rate.
    pub open spec fn updated(
        self,
        processing_time: u64,
        memory_utilization: u64,
        hit_rate: Option<u64>,
    ) -> DAGPerformanceMetrics {
        let tps = if processing_time == 0 {
            1000u64
        } else {
            (1000int / (processing_time as int)) as u64
        };
        DAGPerformanceMetrics {
            total_transactions: if self.total_transactions == u64::MAX {
                u64::MAX
            } else {
                (self.total_transactions + 1) as u64
            },
            avg_processing_time: ((self.avg_processing_time + processing_time) / 2) as u64,
            current_tps: tps,
            peak_tps: if tps > self.peak_tps {
                tps
            } else {
                self.peak_tps
            },
            memory_utilization,
            cache_hit_rate: match hit_rate {
                Some(rate) => rate,
                None => self.cache_hit_rate,
            },
            ..self
        }
    }

    /// Records an operation.
    pub fn update(&mut self, processing_time: u64, memory_utilization: u64, hit_rate: Option<u64>)
        ensures
            *final(self) == old(self).updated(processing_time, memory_utilization, hit_rate),
    {
        if self.total_transactions < u64::MAX {
            self.total_transactions = self.total_transactions + 1;
        }
        let sum: u128 = self.avg_processing_time as u128 + processing_time as u128;
        self.avg_processing_time = (sum / 2) as u64;
        let tps: u64 = if processing_time == 0 {
            1000
        } else {
            1000 / processing_time
        };
        self.current_tps = tps;
        if tps > self.peak_tps {
            self.peak_tps = tps;
        }
        self.memory_utilization = memory_utilization;
        match hit_rate {
            Some(rate) => {
                self.cache_hit_rate = rate;
            },
            None => {},
        }
    }
}

/// How the processing of a batch ended.
#[derive(Debug, Clone, Copy, PartialEq, Eq, Structural)]
pub enum ProcessingStatus {
    Success,
    Partial,
    Failed,
}

/// What a worker reports after processing a batch.
#[derive(Debug)]
pub struct ProcessingResult {
    pub batch_id: u128,
    pub status: ProcessingStatus,
    /// The processed transactions in the order of the batch.
    pub processed_transactions: Vec<u128>,
    /// Duration of the processing in milliseconds.
    pub processing_time: u64,
    pub worker_id: usize,
}

/// A worker that processes batches.
#[derive(Debug, Clone, Copy)]
pub struct ProcessingWorker {
    pub worker_id: usize,
}

impl ProcessingWorker {
    /// Processes a batch: every transaction of the batch is processed, in
    /// order.
    pub fn process_batch(&self, batch: &TransactionBatch, processing_time: u64) -> (result:
        ProcessingResult)
        ensures
            result.batch_id == batch.batch_id,
            result.status == ProcessingStatus::Success,
            result.processed_transactions@.len() == batch.transactions@.len(),
            forall|i: int|
                0 <= i < batch.transactions@.len() ==> result.processed_transactions@[i]
                    == batch.transactions@[i].id,
            result.processing_time == processing_time,
            result.worker_id == self.worker_id,
    {
        ProcessingResult {
            batch_id: batch.batch_id,
            status: ProcessingStatus::Success,
            processed_transactions: batch.ids(),
            processing_time,
            worker_id: self.worker_id,
        }
    }
}

/// Counts of the ledger.
#[derive(Debug, Clone, Copy, PartialEq, Eq, Structural)]
pub struct DAGStatistics {
    pub total_transactions: usize,
    pub pending_transactions: usize,
    pub validated_transactions: usize,
    pub confirmed_transactions: usize,
    pub tips_count: usize,
}

/// Counts and measurements of the ledger.
#[derive(Debug, Clone, Copy, PartialEq, Eq, Structural)]
pub struct AdvancedDAGStatistics {
    pub total_transactions: usize,
    pub pending_transactions: usize,
    pub validated_transactions: usize,
    pub confirmed_transactions: usize,
    pub tips_count: usize,
    pub current_tps: u64,
    pub peak_tps: u64,
    pub avg_processing_time: u64,
    pub memory_utilization: u64,
    pub cache_hit_rate: u64,
    pub parallel_efficiency: u64,
}

} // verus!
