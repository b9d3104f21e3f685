//! Records as they are stored, and their byte format.
//!
//! The storage engine itself is outside this library: it stores and returns
//! bytes under keys. What is verified here is what goes in and comes out:
//! the records, their keys and their bytes.

pub mod wire;
pub mod records;

pub use records::{
    ConflictData, ConflictDataView, ConsensusRoundData, NetworkPeerData, RoundDataView,
    StorageStats, ValidatorStakeData,
};
