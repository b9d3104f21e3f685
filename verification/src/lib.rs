//! Core of a DAG-based distributed ledger: transactions stored as nodes of a
//! directed acyclic graph, tip selection, conflict detection and resolution
//! by voting, and a round-based consensus coordinator.

pub mod advanced_smart_contract_engine;
pub mod ambient;
pub mod consensus;
pub mod crypto;
pub mod dag;
pub mod error;
pub mod laws;
pub mod network;
pub mod registry;
pub mod smart_contract;
pub mod storage;
pub mod testnet_deployment;
pub mod text;
pub mod transaction;
pub mod wallet_integrations;
pub mod wasm_vm;
pub mod zk_starks;

pub use crypto::KeyPair;
pub use error::SDUPIError;
pub use transaction::{Transaction, TransactionStatus};
