//! Conflict detection and resolution, the validator registry and the
//! round-based consensus coordinator.

use vstd::prelude::*;

pub mod advanced;
pub mod conflict;
pub mod engine;
pub mod registry;
pub mod resolver;
pub mod round;

pub use advanced::AdvancedConsensusEngine;
pub use conflict::{Conflict, ConflictType, ConflictView};
pub use engine::{ConsensusEngine, EngineView};
pub use registry::{ValidatorRegistry, ValidatorStake};
pub use resolver::{CoinFlipVoting, VotingStrategy};
pub use round::{
    AIConsensusPredictor, AIModel, AcceptAllProofs, AdvancedConsensusRound, ConsensusData,
    ConsensusPhase, ConsensusResult, ConsensusStats, PerformanceMetrics, PrivacyProofVerifier,
    RefuseAllProofs, RoundMetrics, RoundView, ValidationResult, ValidationStatus, ValidationWorker,
};
pub use crate::dag::batch::TransactionBatch;

verus! {

/// Consensus algorithms. All of them run the same sequence of phases.
#[derive(Debug, Clone, Copy, PartialEq, Eq, Structural)]
pub enum ConsensusAlgorithm {
    HotStuff,
    BFT,
    Hybrid,
    AIConsensus,
}

/// Settings of the HotStuff algorithm. Durations are in milliseconds.
#[derive(Debug, Clone, Copy, PartialEq, Eq, Structural)]
pub struct HotStuffConfig {
    pub view_change_timeout: u64,
    pub max_view_changes: usize,
    pub leader_rotation_interval: u64,
    pub enable_three_phase: bool,
}

/// Settings of Byzantine fault tolerance. Durations are in milliseconds.
#[derive(Debug, Clone, Copy, PartialEq, Eq, Structural)]
pub struct BFTConfig {
    pub fault_tolerance: usize,
    pub total_validators: usize,
    pub pre_prepare_timeout: u64,
    pub prepare_timeout: u64,
    pub commit_timeout: u64,
}

/// How conflicts are resolved. Every choice selects the voting procedure.
#[derive(Debug, Clone, Copy, PartialEq, Eq, Structural)]
pub enum ConflictResolutionAlgorithm {
    FPC,
    AIConflictResolution,
    MultiDimensionalVoting,
    PredictiveAvoidance,
}

/// Settings of conflict resolution.
#[derive(Debug, Clone, Copy, PartialEq, Eq, Structural)]
pub struct ConflictResolutionConfig {
    pub algorithm: ConflictResolutionAlgorithm,
    pub parallel_workers: usize,
    /// Longest resolution in milliseconds.
    pub resolution_timeout: u64,
    pub enable_ai_prediction: bool,
    /// Number of voting rounds held for each candidate of a conflict.
    pub fpc_rounds: u64,
    /// Share of the rounds, in hundredths, that a candidate must win.
    pub fpc_threshold: u64,
}

/// Optimization switches. They select no behaviour.
#[derive(Debug, Clone, Copy, PartialEq, Eq, Structural)]
pub struct PerformanceOptimizations {
    pub enable_parallel: bool,
    pub enable_gpu: bool,
    pub enable_memory_pooling: bool,
    pub enable_predictive_caching: bool,
    pub enable_zero_copy: bool,
}

/// Configuration of the consensus engine.
#[derive(Debug, Clone, Copy, PartialEq, Eq, Structural)]
pub struct AdvancedConsensusConfig {
    pub algorithm: ConsensusAlgorithm,
    /// Smallest stake with which a validator can register.
    pub min_stake: u64,
    /// Length of a round in milliseconds.
    pub round_duration: u64,
    /// Largest number of transactions in a batch.
    pub batch_size: usize,
    /// Number of workers among which batches are dealt.
    pub parallel_workers: usize,
    pub hotstuff_config: HotStuffConfig,
    pub bft_config: BFTConfig,
    pub conflict_resolution: ConflictResolutionConfig,
    pub optimizations: PerformanceOptimizations,
}

impl Default for HotStuffConfig {
    fn default() -> (c: HotStuffConfig)
        ensures
            c == (HotStuffConfig {
                view_change_timeout: 10,
                max_view_changes: 3,
                leader_rotation_interval: 100,
                enable_three_phase: true,
            }),
    {
        HotStuffConfig {
            view_change_timeout: 10,
            max_view_changes: 3,
            leader_rotation_interval: 100,
            enable_three_phase: true,
        }
    }
}

impl Default for BFTConfig {
    fn default() -> (c: BFTConfig)
        ensures
            c == (BFTConfig {
                fault_tolerance: 33,
                total_validators: 100,
                pre_prepare_timeout: 5,
                prepare_timeout: 5,
                commit_timeout: 5,
            }),
    {
        BFTConfig {
            fault_tolerance: 33,
            total_validators: 100,
            pre_prepare_timeout: 5,
            prepare_timeout: 5,
            commit_timeout: 5,
        }
    }
}

impl Default for ConflictResolutionConfig {
    fn default() -> (c: ConflictResolutionConfig)
        ensures
            c == (ConflictResolutionConfig {
                algorithm: ConflictResolutionAlgorithm::AIConflictResolution,
                parallel_workers: 16,
                resolution_timeout: 10,
                enable_ai_prediction: true,
                fpc_rounds: 10,
                fpc_threshold: 67,
            }),
    {
        ConflictResolutionConfig {
            algorithm: ConflictResolutionAlgorithm::AIConflictResolution,
            parallel_workers: 16,
            resolution_timeout: 10,
            enable_ai_prediction: true,
            fpc_rounds: 10,
            fpc_threshold: 67,
        }
    }
}

impl Default for PerformanceOptimizations {
    fn default() -> (o: PerformanceOptimizations)
        ensures
            o == (PerformanceOptimizations {
                enable_parallel: true,
                enable_gpu: false,
                enable_memory_pooling: true,
                enable_predictive_caching: true,
                enable_zero_copy: true,
            }),
    {
        PerformanceOptimizations {
            enable_parallel: true,
            enable_gpu: false,
            enable_memory_pooling: true,
            enable_predictive_caching: true,
            enable_zero_copy: true,
        }
    }
}

impl Default for AdvancedConsensusConfig {
    fn default() -> (c: AdvancedConsensusConfig)
        ensures
            c == (AdvancedConsensusConfig {
                algorithm: ConsensusAlgorithm::Hybrid,
                min_stake: 1000,
                round_duration: 5,
                batch_size: 10_000,
                parallel_workers: 32,
                hotstuff_config: HotStuffConfig {
                    view_change_timeout: 10,
                    max_view_changes: 3,
                    leader_rotation_interval: 100,
                    enable_three_phase: true,
                },
                bft_config: BFTConfig {
                    fault_tolerance: 33,
                    total_validators: 100,
                    pre_prepare_timeout: 5,
                    prepare_timeout: 5,
                    commit_timeout: 5,
                },
                conflict_resolution: ConflictResolutionConfig {
                    algorithm: ConflictResolutionAlgorithm::AIConflictResolution,
                    parallel_workers: 16,
                    resolution_timeout: 10,
                    enable_ai_prediction: true,
                    fpc_rounds: 10,
                    fpc_threshold: 67,
                },
                optimizations: PerformanceOptimizations {
                    enable_parallel: true,
                    enable_gpu: false,
                    enable_memory_pooling: true,
                    enable_predictive_caching: true,
                    enable_zero_copy: true,
                },
            }),
            c.usable(),
    {
        AdvancedConsensusConfig {
            algorithm: ConsensusAlgorithm::Hybrid,
            min_stake: 1000,
            round_duration: 5,
            batch_size: 10_000,
            parallel_workers: 32,
            hotstuff_config: HotStuffConfig::default(),
            bft_config: BFTConfig::default(),
            conflict_resolution: ConflictResolutionConfig::default(),
            optimizations: PerformanceOptimizations::default(),
        }
    }
}

impl AdvancedConsensusConfig {
    /// A configuration can drive an engine when batches hold at least one
    /// transaction and there is at least one worker.
    pub open spec fn usable(self) -> bool {
        self.batch_size > 0 && self.parallel_workers > 0
    }

    /// Whether the configuration can drive an engine.
    pub fn is_usable(&self) -> (ok: bool)
        ensures
            ok == self.usable(),
    {
        self.batch_size > 0 && self.parallel_workers > 0
    }
}

} // verus!
