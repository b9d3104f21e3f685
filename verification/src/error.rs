//! Error taxonomy of the ledger core.

use vstd::prelude::*;

verus! {

/// Errors reported by ledger operations.
///
/// Collaborator failures (database, I/O, serialization) carry the text of the
/// underlying failure.
#[derive(Debug, Clone)]
pub enum SDUPIError {
    TransactionValidation(String),
    Consensus(String),
    Network(String),
    Storage(String),
    Crypto(String),
    Serialization(String),
    InvalidDAG(String),
    NodeNotFound(String),
    InsufficientStake(String),
    ConflictResolution(String),
    ZKSTARKVerification(String),
    WASMExecution(String),
    WasmCompilationError(String),
    ContractNotFound,
    MethodNotFound,
    GasLimitExceeded,
    ParallelExecutionError,
    BridgeNotFound,
    InvalidBridgeState,
    WalletNotConnected,
    Database(String),
    IO(String),
    JSON(String),
    Bincode(String),
}

/// The fixed text that introduces each kind of error, before its detail.
pub open spec fn error_prefix(e: SDUPIError) -> Seq<char> {
    match e {
        SDUPIError::TransactionValidation(_) => "Transaction validation failed: "@,
        SDUPIError::Consensus(_) => "Consensus error: "@,
        SDUPIError::Network(_) => "Network error: "@,
        SDUPIError::Storage(_) => "Storage error: "@,
        SDUPIError::Crypto(_) => "Cryptographic error: "@,
        SDUPIError::Serialization(_) => "Serialization error: "@,
        SDUPIError::InvalidDAG(_) => "Invalid DAG structure: "@,
        SDUPIError::NodeNotFound(_) => "Node not found: "@,
        SDUPIError::InsufficientStake(_) => "Insufficient stake: "@,
        SDUPIError::ConflictResolution(_) => "Conflict resolution failed: "@,
        SDUPIError::ZKSTARKVerification(_) => "ZK-STARK verification failed: "@,
        SDUPIError::WASMExecution(_) => "WASM execution error: "@,
        SDUPIError::WasmCompilationError(_) => "WASM compilation error: "@,
        SDUPIError::ContractNotFound => "Smart contract not found"@,
        SDUPIError::MethodNotFound => "Method not found in contract"@,
        SDUPIError::GasLimitExceeded => "Gas limit exceeded"@,
        SDUPIError::ParallelExecutionError => "Parallel execution error"@,
        SDUPIError::BridgeNotFound => "Cross-chain bridge not found"@,
        SDUPIError::InvalidBridgeState => "Invalid bridge state"@,
        SDUPIError::WalletNotConnected => "Wallet not connected"@,
        SDUPIError::Database(_) => "Database error: "@,
        SDUPIError::IO(_) => "IO error: "@,
        SDUPIError::JSON(_) => "JSON error: "@,
        SDUPIError::Bincode(_) => "Bincode error: "@,
    }
}

/// The detail carried by an error; empty for the kinds that carry none.
pub open spec fn error_detail(e: SDUPIError) -> Seq<char> {
    match e {
        SDUPIError::TransactionValidation(s) => s@,
        SDUPIError::Consensus(s) => s@,
        SDUPIError::Network(s) => s@,
        SDUPIError::Storage(s) => s@,
        SDUPIError::Crypto(s) => s@,
        SDUPIError::Serialization(s) => s@,
        SDUPIError::InvalidDAG(s) => s@,
        SDUPIError::NodeNotFound(s) => s@,
        SDUPIError::InsufficientStake(s) => s@,
        SDUPIError::ConflictResolution(s) => s@,
        SDUPIError::ZKSTARKVerification(s) => s@,
        SDUPIError::WASMExecution(s) => s@,
        SDUPIError::WasmCompilationError(s) => s@,
        SDUPIError::Database(s) => s@,
        SDUPIError::IO(s) => s@,
        SDUPIError::JSON(s) => s@,
        SDUPIError::Bincode(s) => s@,
        _ => Seq::<char>::empty(),
    }
}

impl SDUPIError {
    /// The text shown for this error: its prefix followed by its detail.
    pub open spec fn spec_message(self) -> Seq<char> {
        error_prefix(self) + error_detail(self)
    }

    /// Renders the error as text.
    pub fn message(&self) -> (text: String)
        ensures
            text@ == self.spec_message(),
    {
        match self {
            SDUPIError::TransactionValidation(s) => String::from_str(
                "Transaction validation failed: ",
            ).concat(s.as_str()),
            SDUPIError::Consensus(s) => String::from_str("Consensus error: ").concat(s.as_str()),
            SDUPIError::Network(s) => String::from_str("Network error: ").concat(s.as_str()),
            SDUPIError::Storage(s) => String::from_str("Storage error: ").concat(s.as_str()),
            SDUPIError::Crypto(s) => String::from_str("Cryptographic error: ").concat(s.as_str()),
            SDUPIError::Serialization(s) => String::from_str("Serialization error: ").concat(
                s.as_str(),
            ),
            SDUPIError::InvalidDAG(s) => String::from_str("Invalid DAG structure: ").concat(
                s.as_str(),
            ),
            SDUPIError::NodeNotFound(s) => String::from_str("Node not found: ").concat(s.as_str()),
            SDUPIError::InsufficientStake(s) => String::from_str("Insufficient stake: ").concat(
                s.as_str(),
            ),
            SDUPIError::ConflictResolution(s) => String::from_str(
                "Conflict resolution failed: ",
            ).concat(s.as_str()),
            SDUPIError::ZKSTARKVerification(s) => String::from_str(
                "ZK-STARK verification failed: ",
            ).concat(s.as_str()),
            SDUPIError::WASMExecution(s) => String::from_str("WASM execution error: ").concat(
                s.as_str(),
            ),
            SDUPIError::WasmCompilationError(s) => String::from_str(
                "WASM compilation error: ",
            ).concat(s.as_str()),
            SDUPIError::ContractNotFound => String::from_str("Smart contract not found"),
            SDUPIError::MethodNotFound => String::from_str("Method not found in contract"),
            SDUPIError::GasLimitExceeded => String::from_str("Gas limit exceeded"),
            SDUPIError::ParallelExecutionError => String::from_str("Parallel execution error"),
            SDUPIError::BridgeNotFound => String::from_str("Cross-chain bridge not found"),
            SDUPIError::InvalidBridgeState => String::from_str("Invalid bridge state"),
            SDUPIError::WalletNotConnected => String::from_str("Wallet not connected"),
            SDUPIError::Database(s) => String::from_str("Database error: ").concat(s.as_str()),
            SDUPIError::IO(s) => String::from_str("IO error: ").concat(s.as_str()),
            SDUPIError::JSON(s) => String::from_str("JSON error: ").concat(s.as_str()),
            SDUPIError::Bincode(s) => String::from_str("Bincode error: ").concat(s.as_str()),
        }
    }
}

impl From<String> for SDUPIError {
    /// A bare message is a transaction-validation failure.
    fn from(err: String) -> (e: SDUPIError) {
        SDUPIError::TransactionValidation(err)
    }
}

impl vstd::std_specs::convert::FromSpecImpl<String> for SDUPIError {
    open spec fn obeys_from_spec() -> bool {
        true
    }

    open spec fn from_spec(err: String) -> SDUPIError {
        SDUPIError::TransactionValidation(err)
    }
}

} // verus!
