//! The ledger: transactions as nodes of a directed acyclic graph, a pending
//! queue ordered by priority, and the cache of tips.

use vstd::prelude::*;

pub mod batch;
pub mod growth;
pub mod ledger;
pub mod model;
pub mod priority;
pub mod progress;
pub mod support;
pub mod tips;

pub use batch::{BatchView, TransactionBatch};
pub use ledger::{AdvancedDAGLedger, AdvancedDAGNode};
pub use model::{Admission, GraphView, LedgerView, NodePerformanceMetrics, NodeView};
pub use support::{
    AIConflictPredictor, AdvancedDAGStatistics, ConflictData, ConflictPredictionModel,
    DAGPerformanceMetrics, DAGStatistics, MemoryPool, PatternData, PredictiveCache,
    ProcessingResult, ProcessingStatus, ProcessingWorker,
};

verus! {

/// How conflicts are resolved. Only the voting procedure has behaviour of its
/// own; the other choices select the same procedure.
#[derive(Debug, Clone, Copy, PartialEq, Eq, Structural)]
pub enum ConflictResolutionAlgorithm {
    FPC,
    AIConflictResolution,
    MultiDimensionalVoting,
    PredictiveAvoidance,
    QuantumInspired,
}

/// Conflict-resolution settings of the ledger.
#[derive(Debug, Clone, Copy, PartialEq, Eq, Structural)]
pub struct AdvancedConflictResolution {
    pub algorithm: ConflictResolutionAlgorithm,
    pub parallel_workers: usize,
    pub enable_ai_prediction: bool,
    pub enable_predictive_avoidance: bool,
}

/// Optimization switches. They select no behaviour of the ledger.
#[derive(Debug, Clone, Copy, PartialEq, Eq, Structural)]
pub struct DAGOptimizations {
    pub enable_parallel: bool,
    pub enable_memory_pooling: bool,
    pub enable_predictive_caching: bool,
    pub enable_zero_copy: bool,
    pub enable_gpu: bool,
    pub enable_vectorization: bool,
}

/// Weights of the four terms of a priority score.
#[derive(Debug, Clone, Copy, PartialEq, Eq, Structural)]
pub struct PriorityWeights {
    /// Weight of the fee.
    pub fee: u32,
    /// Weight of the chance that the transaction meets no conflict.
    pub certainty: u32,
    /// Weight of recency.
    pub recency: u32,
    /// Weight of the decimal order of magnitude of the amount.
    pub amount: u32,
}

/// Configuration of a ledger.
#[derive(Debug, Clone, Copy, PartialEq, Eq, Structural)]
pub struct AdvancedDAGConfig {
    /// Largest number of tips kept in the tip cache.
    pub max_tips: usize,
    /// Number of workers among which batches are dealt.
    pub parallel_workers: usize,
    /// Largest number of transactions in a batch.
    pub batch_size: usize,
    /// Size of the memory pool in bytes.
    pub memory_pool_size: usize,
    pub enable_gpu: bool,
    pub enable_predictive_caching: bool,
    pub enable_zero_copy: bool,
    pub conflict_resolution: AdvancedConflictResolution,
    pub optimizations: DAGOptimizations,
    pub priority_weights: PriorityWeights,
}

impl Default for AdvancedConflictResolution {
    fn default() -> (c: AdvancedConflictResolution)
        ensures
            c == (AdvancedConflictResolution {
                algorithm: ConflictResolutionAlgorithm::AIConflictResolution,
                parallel_workers: 32,
                enable_ai_prediction: true,
                enable_predictive_avoidance: true,
            }),
    {
        AdvancedConflictResolution {
            algorithm: ConflictResolutionAlgorithm::AIConflictResolution,
            parallel_workers: 32,
            enable_ai_prediction: true,
            enable_predictive_avoidance: true,
        }
    }
}

impl Default for DAGOptimizations {
    fn default() -> (o: DAGOptimizations)
        ensures
            o == (DAGOptimizations {
                enable_parallel: true,
                enable_memory_pooling: true,
                enable_predictive_caching: true,
                enable_zero_copy: true,
                enable_gpu: false,
                enable_vectorization: true,
            }),
    {
        DAGOptimizations {
            enable_parallel: true,
            enable_memory_pooling: true,
            enable_predictive_caching: true,
            enable_zero_copy: true,
            enable_gpu: false,
            enable_vectorization: true,
        }
    }
}

impl Default for PriorityWeights {
    fn default() -> (w: PriorityWeights)
        ensures
            w == (PriorityWeights { fee: 10, certainty: 100, recency: 50, amount: 20 }),
    {
        PriorityWeights { fee: 10, certainty: 100, recency: 50, amount: 20 }
    }
}

impl Default for AdvancedDAGConfig {
    fn default() -> (c: AdvancedDAGConfig)
        ensures
            c.max_tips == 10_000,
            c.parallel_workers == 64,
            c.batch_size == 50_000,
            c.memory_pool_size == 100_000,
            !c.enable_gpu,
            c.enable_predictive_caching,
            c.enable_zero_copy,
            c.conflict_resolution == (AdvancedConflictResolution {
                algorithm: ConflictResolutionAlgorithm::AIConflictResolution,
                parallel_workers: 32,
                enable_ai_prediction: true,
                enable_predictive_avoidance: true,
            }),
            c.optimizations == (DAGOptimizations {
                enable_parallel: true,
                enable_memory_pooling: true,
                enable_predictive_caching: true,
                enable_zero_copy: true,
                enable_gpu: false,
                enable_vectorization: true,
            }),
            c.priority_weights == (PriorityWeights {
                fee: 10,
                certainty: 100,
                recency: 50,
                amount: 20,
            }),
            c.usable(),
    {
        AdvancedDAGConfig {
            max_tips: 10_000,
            parallel_workers: 64,
            batch_size: 50_000,
            memory_pool_size: 100_000,
            enable_gpu: false,
            enable_predictive_caching: true,
            enable_zero_copy: true,
            conflict_resolution: AdvancedConflictResolution::default(),
            optimizations: DAGOptimizations::default(),
            priority_weights: PriorityWeights::default(),
        }
    }
}

impl AdvancedDAGConfig {
    /// A configuration can drive a ledger when batches hold at least one
    /// transaction and there is at least one worker.
    pub open spec fn usable(self) -> bool {
        self.batch_size > 0 && self.parallel_workers > 0
    }

    /// Whether the configuration can drive a ledger.
    pub fn is_usable(&self) -> (ok: bool)
        ensures
            ok == self.usable(),
    {
        self.batch_size > 0 && self.parallel_workers > 0
    }
}

} // verus!
