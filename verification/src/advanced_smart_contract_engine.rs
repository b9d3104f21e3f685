//! The contract engine: deployment and simulated execution of contracts,
//! cross-chain calls and a sample of decentralized-finance operations.
//!
//! Execution is simulated: what a call returns is computed from its
//! arguments, and no contract code runs.

use vstd::prelude::*;
use vstd::utf8::encode_utf8;
use crate::ambient::{fresh_id, uuid_hyphenated, uuid_text};
use crate::error::SDUPIError;
use crate::registry::{copy_bytes, Registry};
use crate::text::{decimal_digits, decimal_string};

verus! {

/// Switches and limits of the engine.
#[derive(Debug, Clone, Copy, PartialEq, Eq, Structural)]
pub struct SDUPIContractEngineConfig {
    pub enable_ai_optimization: bool,
    pub enable_quantum_safe: bool,
    pub enable_cross_chain: bool,
    pub enable_parallel_execution: bool,
    pub enable_real_time_optimization: bool,
    pub max_gas_limit: u64,
    /// Longest execution in milliseconds.
    pub execution_timeout: u64,
}

impl Default for SDUPIContractEngineConfig {
    fn default() -> (c: SDUPIContractEngineConfig)
        ensures
            c == (SDUPIContractEngineConfig {
                enable_ai_optimization: true,
                enable_quantum_safe: true,
                enable_cross_chain: true,
                enable_parallel_execution: true,
                enable_real_time_optimization: true,
                max_gas_limit: 1_000_000_000,
                execution_timeout: 100,
            }),
    {
        SDUPIContractEngineConfig {
            enable_ai_optimization: true,
            enable_quantum_safe: true,
            enable_cross_chain: true,
            enable_parallel_execution: true,
            enable_real_time_optimization: true,
            max_gas_limit: 1_000_000_000,
            execution_timeout: 100,
        }
    }
}

/// Chains that the bridge knows.
#[derive(Debug, Clone, Copy, PartialEq, Eq, Hash, Structural)]
pub enum ChainId {
    Ethereum,
    Solana,
    Polkadot,
    SDUPI,
}

impl ChainId {
    /// The chain's name.
    pub open spec fn spec_name(self) -> Seq<char> {
        match self {
            ChainId::Ethereum => "Ethereum"@,
            ChainId::Solana => "Solana"@,
            ChainId::Polkadot => "Polkadot"@,
            ChainId::SDUPI => "SDUPI"@,
        }
    }

    /// The chain's name.
    pub fn name(&self) -> (text: String)
        ensures
            text@ == self.spec_name(),
    {
        match self {
            ChainId::Ethereum => String::from_str("Ethereum"),
            ChainId::Solana => String::from_str("Solana"),
            ChainId::Polkadot => String::from_str("Polkadot"),
            ChainId::SDUPI => String::from_str("SDUPI"),
        }
    }
}

/// Ways in which the optimizer looks at a contract.
#[derive(Debug, Clone, Copy, PartialEq, Eq, Structural)]
pub enum OptimizationStrategy {
    CodeOptimization,
    SecurityAudit,
    PerformancePrediction,
    GasOptimization,
}

/// Families of post-quantum algorithms.
#[derive(Debug, Clone, Copy, PartialEq, Eq, Structural)]
pub enum QuantumAlgorithm {
    LatticeBased,
    HashBased,
    CodeBased,
    Multivariate,
}

/// Address of a contract: "0x" followed by the contract's name.
#[derive(Debug, Clone, PartialEq, Eq, Hash)]
pub struct ContractAddress(String);

impl View for ContractAddress {
    type V = Seq<char>;

    closed spec fn view(&self) -> Seq<char> {
        self.0@
    }
}

impl ContractAddress {
    /// The address of the contract with a name.
    pub fn new(name: &str) -> (address: ContractAddress)
        ensures
            address@ == "0x"@ + name@,
    {
        ContractAddress(String::from_str("0x").concat(name))
    }

    /// The address as text.
    pub fn to_text(&self) -> (text: String)
        ensures
            text@ == self@,
    {
        self.0.clone()
    }

    fn as_str(&self) -> (text: &str)
        ensures
            text@ == self@,
    {
        self.0.as_str()
    }
}

/// Address of an account.
#[derive(Debug, Clone)]
pub struct Address(pub String);

impl View for Address {
    type V = Seq<char>;

    open spec fn view(&self) -> Seq<char> {
        self.0@
    }
}

impl Address {
    /// The address as text.
    pub fn to_text(&self) -> (text: String)
        ensures
            text@ == self@,
    {
        self.0.clone()
    }
}

/// An asset on a chain.
#[derive(Debug)]
pub struct Asset {
    pub symbol: String,
    pub chain: ChainId,
}

/// The mathematical value of an asset.
pub ghost struct AssetView {
    pub symbol: Seq<char>,
    pub chain: ChainId,
}

impl View for Asset {
    type V = AssetView;

    open spec fn view(&self) -> AssetView {
        AssetView { symbol: self.symbol@, chain: self.chain }
    }
}

impl Clone for Asset {
    fn clone(&self) -> (copy: Asset)
        ensures
            copy@ == self@,
    {
        Asset { symbol: self.symbol.clone(), chain: self.chain }
    }
}

impl Asset {
    /// The asset as text: its symbol and its chain.
    pub fn to_text(&self) -> (text: String)
        ensures
            text@ == self.symbol@ + " on "@ + self.chain.spec_name(),
    {
        let chain = self.chain.name();
        self.symbol.clone().concat(" on ").concat(chain.as_str())
    }
}

/// Two assets that trade against each other.
#[derive(Debug)]
pub struct AssetPair {
    pub asset1: Asset,
    pub asset2: Asset,
}

/// Liquidity held for a pair of assets.
#[derive(Debug)]
pub struct LiquidityPool {
    pub asset_pair: AssetPair,
    pub liquidity: u64,
}

/// Strategies of a yield farm.
#[derive(Debug)]
pub struct YieldFarmingEngine {
    pub strategies: Vec<String>,
}

/// The bridge contract of a chain.
#[derive(Debug)]
pub struct ChainBridge {
    pub chain: ChainId,
    pub bridge: String,
}

/// Swaps between chains.
#[derive(Debug)]
pub struct CrossChainSwap {
    pub bridges: Vec<ChainBridge>,
}

impl CrossChainSwap {
    /// Carries out a swap between chains. The simulated swap always succeeds.
    pub fn execute_atomic_swap(
        &self,
        _source: ChainId,
        _target: ChainId,
        _asset: &Asset,
        _amount: u64,
    ) -> (result: Result<(), SDUPIError>)
        ensures
            result is Ok,
    {
        Ok(())
    }
}

/// A trading bot.
#[derive(Debug)]
pub struct AITradingBot {
    pub model: String,
}

impl AITradingBot {
    /// The route of a swap: from the input asset straight to the output asset.
    pub fn find_optimal_route(&self, input: &Asset, output: &Asset, _amount: u64) -> (result:
        Result<Vec<Asset>, SDUPIError>)
        ensures
            result matches Ok(route) && route@.len() == 2 && route@[0]@ == input@ && route@[1]@
                == output@,
    {
        let mut route: Vec<Asset> = Vec::new();
        route.push(input.clone());
        route.push(output.clone());
        Ok(route)
    }
}

/// A vault that seals transfers.
#[derive(Debug)]
pub struct QuantumSafeVault {
    pub algorithms: Vec<QuantumAlgorithm>,
}

/// The text that stands for a sealed transfer.
pub open spec fn sealed_transfer_text(amount: u64, recipient: Seq<char>) -> Seq<char> {
    "encrypted_"@ + decimal_digits(amount as nat) + "_"@ + recipient
}

impl QuantumSafeVault {
    /// Seals a transfer. The simulated seal is the text "encrypted", the
    /// amount and the recipient, joined by underscores.
    pub fn encrypt_transfer(&self, amount: u64, recipient: &Address) -> (result: Result<
        Vec<u8>,
        SDUPIError,
    >)
        ensures
            result matches Ok(sealed) && sealed@ == encode_utf8(
                sealed_transfer_text(amount, recipient@),
            ),
    {
        let amount_text = decimal_string(amount);
        let text = String::from_str("encrypted_").concat(amount_text.as_str()).concat(
            "_",
        ).concat(recipient.0.as_str());
        Ok(copy_bytes(text.as_str().as_bytes()))
    }
}

/// Outcome of a swap.
#[derive(Debug)]
pub struct SwapResult {
    pub success: bool,
    pub input_amount: u64,
    pub output_amount: u64,
    pub route: Vec<Asset>,
    pub gas_used: u64,
}

/// Outcome of a transfer.
#[derive(Debug)]
pub struct TransferResult {
    pub success: bool,
    pub amount: u64,
    pub recipient: Address,
    pub transaction_hash: String,
    pub encryption_level: String,
}

/// Outcome of a swap between chains.
#[derive(Debug)]
pub struct AtomicSwapResult {
    pub success: bool,
    pub source_chain: ChainId,
    pub target_chain: ChainId,
    pub asset: Asset,
    pub amount: u64,
    pub transaction_hash: String,
    /// Duration in milliseconds.
    pub execution_time: u64,
}

/// Outcome of the execution of a contract.
#[derive(Debug)]
pub struct ContractExecutionResult {
    pub success: bool,
    pub gas_used: u64,
    pub return_data: Vec<u8>,
    /// Duration in milliseconds.
    pub execution_time: u64,
}

/// Outcome of a call across chains.
#[derive(Debug)]
pub struct CrossChainResult {
    pub success: bool,
    pub source_chain: ChainId,
    pub target_chain: ChainId,
    pub transaction_hash: String,
    /// Duration in milliseconds.
    pub execution_time: u64,
}

/// A named value of a contract's state.
#[derive(Debug)]
pub struct StateEntry {
    pub key: String,
    pub value: Vec<u8>,
}

/// State of a deployed contract.
#[derive(Debug)]
pub struct ContractState {
    pub data: Vec<StateEntry>,
    pub balance: u64,
    pub owner: Address,
}

/// A sample contract for decentralized finance.
#[derive(Debug)]
pub struct AdvancedDeFiContract {
    pub liquidity_pools: Vec<LiquidityPool>,
    pub yield_farming: YieldFarmingEngine,
    pub cross_chain_swaps: CrossChainSwap,
    pub ai_trading_bot: AITradingBot,
    pub quantum_safe_vaults: QuantumSafeVault,
}

impl AdvancedDeFiContract {
    /// Swaps an amount of one asset for another along the bot's route. The
    /// simulated swap pays out twice the input; an input whose double does
    /// not fit 64 bits is refused.
    pub fn ai_optimized_swap(&mut self, input: Asset, output: Asset, amount: u64) -> (result:
        Result<SwapResult, SDUPIError>)
        ensures
            *final(self) == *old(self),
            result is Ok <==> amount <= u64::MAX / 2,
            result matches Ok(swap) ==> swap.success && swap.input_amount == amount
                && swap.output_amount == 2 * amount && swap.gas_used == 1000 && swap.route@.len()
                == 2 && swap.route@[0]@ == input@ && swap.route@[1]@ == output@,
            result matches Err(e) ==> e matches SDUPIError::WASMExecution(_),
    {
        if amount > u64::MAX / 2 {
            return Err(SDUPIError::WASMExecution(String::from_str("Swap output overflows")));
        }
        let route = match self.ai_trading_bot.find_optimal_route(&input, &output, amount) {
            Ok(route) => route,
            Err(e) => {
                return Err(e);
            },
        };
        Ok(
            SwapResult {
                success: true,
                input_amount: amount,
                output_amount: amount * 2,
                route,
                gas_used: 1000,
            },
        )
    }

    /// Transfers an amount to a recipient under a given transaction number.
    pub fn quantum_safe_transfer_as(&self, transfer_id: u128, amount: u64, recipient: Address) -> (result:
        Result<TransferResult, SDUPIError>)
        ensures
            result matches Ok(transfer) && transfer.success && transfer.amount == amount
                && transfer.recipient@ == recipient@ && transfer.transaction_hash@
                == "quantum_safe_tx_"@ + uuid_hyphenated(transfer_id)
                && transfer.encryption_level@ == "Quantum-Safe"@,
    {
        match self.quantum_safe_vaults.encrypt_transfer(amount, &recipient) {
            Ok(_) => {},
            Err(e) => {
                return Err(e);
            },
        }
        let id_text = uuid_text(transfer_id);
        Ok(
            TransferResult {
                success: true,
                amount,
                recipient,
                transaction_hash: String::from_str("quantum_safe_tx_").concat(id_text.as_str()),
                encryption_level: String::from_str("Quantum-Safe"),
            },
        )
    }

    /// Transfers an amount to a recipient under a fresh transaction number.
    pub fn quantum_safe_transfer(&self, amount: u64, recipient: Address) -> (result: Result<
        TransferResult,
        SDUPIError,
    >)
        ensures
            result matches Ok(transfer) && transfer.success && transfer.amount == amount
                && transfer.recipient@ == recipient@ && transfer.encryption_level@
                == "Quantum-Safe"@ && exists|id: u128|
                transfer.transaction_hash@ == "quantum_safe_tx_"@ + #[trigger] uuid_hyphenated(id),
    {
        self.quantum_safe_transfer_as(fresh_id(), amount, recipient)
    }

    /// Swaps an asset between chains under a given transaction number.
    pub fn cross_chain_atomic_swap_as(
        &self,
        swap_id: u128,
        source_chain: ChainId,
        target_chain: ChainId,
        asset: Asset,
        amount: u64,
    ) -> (result: Result<AtomicSwapResult, SDUPIError>)
        ensures
            result matches Ok(swap) && swap.success && swap.source_chain == source_chain
                && swap.target_chain == target_chain && swap.asset@ == asset@ && swap.amount
                == amount && swap.transaction_hash@ == "atomic_swap_"@ + uuid_hyphenated(swap_id)
                && swap.execution_time == 100,
    {
        match self.cross_chain_swaps.execute_atomic_swap(
            source_chain,
            target_chain,
            &asset,
            amount,
        ) {
            Ok(()) => {},
            Err(e) => {
                return Err(e);
            },
        }
        let id_text = uuid_text(swap_id);
        Ok(
            AtomicSwapResult {
                success: true,
                source_chain,
                target_chain,
                asset,
                amount,
                transaction_hash: String::from_str("atomic_swap_").concat(id_text.as_str()),
                execution_time: 100,
            },
        )
    }

    /// Swaps an asset between chains under a fresh transaction number.
    pub fn cross_chain_atomic_swap(
        &self,
        source_chain: ChainId,
        target_chain: ChainId,
        asset: Asset,
        amount: u64,
    ) -> (result: Result<AtomicSwapResult, SDUPIError>)
        ensures
            result matches Ok(swap) && swap.success && swap.source_chain == source_chain
                && swap.target_chain == target_chain && swap.asset@ == asset@ && swap.amount
                == amount && swap.execution_time == 100 && exists|id: u128|
                swap.transaction_hash@ == "atomic_swap_"@ + #[trigger] uuid_hyphenated(id),
    {
        self.cross_chain_atomic_swap_as(fresh_id(), source_chain, target_chain, asset, amount)
    }
}

/// The optimizer of contract code.
#[derive(Debug)]
pub struct AIContractOptimizer {
    ai_model: String,
    strategies: Vec<OptimizationStrategy>,
}

impl AIContractOptimizer {
    /// The model's name.
    pub closed spec fn model(&self) -> Seq<char> {
        self.ai_model@
    }

    /// The strategies in use.
    pub closed spec fn strategies(&self) -> Seq<OptimizationStrategy> {
        self.strategies@
    }

    /// The optimizer with its four strategies.
    pub fn new() -> (optimizer: AIContractOptimizer)
        ensures
            optimizer.model() == "GPT-4-Advanced"@,
            optimizer.strategies() == seq![
                OptimizationStrategy::CodeOptimization,
                OptimizationStrategy::SecurityAudit,
                OptimizationStrategy::PerformancePrediction,
                OptimizationStrategy::GasOptimization,
            ],
    {
        let mut strategies: Vec<OptimizationStrategy> = Vec::new();
        strategies.push(OptimizationStrategy::CodeOptimization);
        strategies.push(OptimizationStrategy::SecurityAudit);
        strategies.push(OptimizationStrategy::PerformancePrediction);
        strategies.push(OptimizationStrategy::GasOptimization);
        assert(strategies@ =~= seq![
            OptimizationStrategy::CodeOptimization,
            OptimizationStrategy::SecurityAudit,
            OptimizationStrategy::PerformancePrediction,
            OptimizationStrategy::GasOptimization,
        ]);
        AIContractOptimizer { ai_model: String::from_str("GPT-4-Advanced"), strategies }
    }

    /// Optimizes contract code. The code comes back as it went in.
    pub fn optimize_contract(&self, code: &[u8]) -> (result: Result<Vec<u8>, SDUPIError>)
        ensures
            result matches Ok(optimized) && optimized@ == code@,
    {
        Ok(copy_bytes(code))
    }
}

/// The post-quantum algorithms on offer.
#[derive(Debug)]
pub struct QuantumSafeCrypto {
    algorithms: Vec<QuantumAlgorithm>,
}

impl QuantumSafeCrypto {
    /// The algorithms on offer.
    pub closed spec fn algorithms(&self) -> Seq<QuantumAlgorithm> {
        self.algorithms@
    }

    /// All four families.
    pub fn new() -> (crypto: QuantumSafeCrypto)
        ensures
            crypto.algorithms() == seq![
                QuantumAlgorithm::LatticeBased,
                QuantumAlgorithm::HashBased,
                QuantumAlgorithm::CodeBased,
                QuantumAlgorithm::Multivariate,
            ],
    {
        let mut algorithms: Vec<QuantumAlgorithm> = Vec::new();
        algorithms.push(QuantumAlgorithm::LatticeBased);
        algorithms.push(QuantumAlgorithm::HashBased);
        algorithms.push(QuantumAlgorithm::CodeBased);
        algorithms.push(QuantumAlgorithm::Multivariate);
        assert(algorithms@ =~= seq![
            QuantumAlgorithm::LatticeBased,
            QuantumAlgorithm::HashBased,
            QuantumAlgorithm::CodeBased,
            QuantumAlgorithm::Multivariate,
        ]);
        QuantumSafeCrypto { algorithms }
    }
}

/// The optimizer of running calls.
#[derive(Debug)]
pub struct RealTimeOptimizer {
    optimization_cache: Vec<StateEntry>,
}

impl RealTimeOptimizer {
    /// Number of cached optimizations.
    pub closed spec fn cached(&self) -> nat {
        self.optimization_cache@.len()
    }

    /// An optimizer with an empty cache.
    pub fn new() -> (optimizer: RealTimeOptimizer)
        ensures
            optimizer.cached() == 0,
    {
        RealTimeOptimizer { optimization_cache: Vec::new() }
    }

    /// Optimizes the parameters of a call. They come back as they went in.
    pub fn optimize_execution(
        &self,
        _contract_address: &ContractAddress,
        _method: &str,
        params: &[u8],
    ) -> (result: Result<Vec<u8>, SDUPIError>)
        ensures
            result matches Ok(optimized) && optimized@ == params@,
    {
        Ok(copy_bytes(params))
    }
}

/// The bridge between chains.
#[derive(Debug)]
pub struct CrossChainBridge {
    supported_chains: Vec<ChainId>,
    bridge_contracts: Vec<(ChainId, ContractAddress)>,
}

impl CrossChainBridge {
    /// The chains that the bridge reaches.
    pub closed spec fn chains(&self) -> Seq<ChainId> {
        self.supported_chains@
    }

    /// The bridge contract of each chain.
    pub closed spec fn contracts(&self) -> Seq<(ChainId, Seq<char>)> {
        Seq::new(
            self.bridge_contracts@.len(),
            |i: int| (self.bridge_contracts@[i].0, self.bridge_contracts@[i].1@),
        )
    }

    /// The bridge to Ethereum, Solana and Polkadot.
    pub fn new() -> (bridge: CrossChainBridge)
        ensures
            bridge.chains() == seq![ChainId::Ethereum, ChainId::Solana, ChainId::Polkadot],
            bridge.contracts() == seq![
                (ChainId::Ethereum, "0x"@ + "bridge_eth"@),
                (ChainId::Solana, "0x"@ + "bridge_sol"@),
                (ChainId::Polkadot, "0x"@ + "bridge_dot"@),
            ],
    {
        let mut bridge_contracts: Vec<(ChainId, ContractAddress)> = Vec::new();
        bridge_contracts.push((ChainId::Ethereum, ContractAddress::new("bridge_eth")));
        bridge_contracts.push((ChainId::Solana, ContractAddress::new("bridge_sol")));
        bridge_contracts.push((ChainId::Polkadot, ContractAddress::new("bridge_dot")));
        let mut supported_chains: Vec<ChainId> = Vec::new();
        supported_chains.push(ChainId::Ethereum);
        supported_chains.push(ChainId::Solana);
        supported_chains.push(ChainId::Polkadot);
        assert(supported_chains@ =~= seq![ChainId::Ethereum, ChainId::Solana, ChainId::Polkadot]);
        let bridge = CrossChainBridge { supported_chains, bridge_contracts };
        assert(bridge.contracts() =~= seq![
            (ChainId::Ethereum, "0x"@ + "bridge_eth"@),
            (ChainId::Solana, "0x"@ + "bridge_sol"@),
            (ChainId::Polkadot, "0x"@ + "bridge_dot"@),
        ]);
        bridge
    }

    /// Carries out a call across chains under a given transaction number.
    pub fn execute_atomic_swap_as(
        &self,
        swap_id: u128,
        source_chain: ChainId,
        target_chain: ChainId,
        _contract_address: &ContractAddress,
        _method: String,
        _params: Vec<u8>,
    ) -> (result: Result<CrossChainResult, SDUPIError>)
        ensures
            result matches Ok(r) && r.success && r.source_chain == source_chain && r.target_chain
                == target_chain && r.transaction_hash@ == "cross_chain_tx_"@ + uuid_hyphenated(
                swap_id,
            ) && r.execution_time == 50,
    {
        let id_text = uuid_text(swap_id);
        Ok(
            CrossChainResult {
                success: true,
                source_chain,
                target_chain,
                transaction_hash: String::from_str("cross_chain_tx_").concat(id_text.as_str()),
                execution_time: 50,
            },
        )
    }

    /// Carries out a call across chains under a fresh transaction number.
    pub fn execute_atomic_swap(
        &self,
        source_chain: ChainId,
        target_chain: ChainId,
        contract_address: &ContractAddress,
        method: String,
        params: Vec<u8>,
    ) -> (result: Result<CrossChainResult, SDUPIError>)
        ensures
            result matches Ok(r) && r.success && r.source_chain == source_chain && r.target_chain
                == target_chain && r.execution_time == 50 && exists|id: u128|
                r.transaction_hash@ == "cross_chain_tx_"@ + #[trigger] uuid_hyphenated(id),
    {
        self.execute_atomic_swap_as(
            fresh_id(),
            source_chain,
            target_chain,
            contract_address,
            method,
            params,
        )
    }
}

/// The text that a parallel execution returns.
pub open spec fn parallel_return_text(method: Seq<char>, address: Seq<char>) -> Seq<char> {
    "Parallel execution of "@ + method + " on "@ + address
}

/// The text that a sequential execution returns.
pub open spec fn sequential_return_text(method: Seq<char>, address: Seq<char>) -> Seq<char> {
    "Executed "@ + method + " on "@ + address
}

/// The executor that runs calls side by side.
#[derive(Debug)]
pub struct ParallelContractExecutor {
    worker_count: usize,
}

impl ParallelContractExecutor {
    /// Number of workers.
    pub closed spec fn workers(&self) -> usize {
        self.worker_count
    }

    /// An executor with 64 workers.
    pub fn new() -> (executor: ParallelContractExecutor)
        ensures
            executor.workers() == 64,
    {
        ParallelContractExecutor { worker_count: 64 }
    }

    /// Runs a call in parallel. The simulated run uses a quarter of the gas
    /// limit and takes 5 milliseconds.
    pub fn execute_parallel(
        &self,
        contract_address: &ContractAddress,
        method: &str,
        _params: &[u8],
        gas_limit: u64,
    ) -> (result: Result<ContractExecutionResult, SDUPIError>)
        ensures
            result matches Ok(r) && r.success && r.gas_used == gas_limit / 4 && r.return_data@
                == encode_utf8(parallel_return_text(method@, contract_address@))
                && r.execution_time == 5,
    {
        let text = String::from_str("Parallel execution of ").concat(method).concat(
            " on ",
        ).concat(contract_address.as_str());
        Ok(
            ContractExecutionResult {
                success: true,
                gas_used: gas_limit / 4,
                return_data: copy_bytes(text.as_str().as_bytes()),
                execution_time: 5,
            },
        )
    }
}

/// The engine: a table of deployed contracts with the parts that optimize,
/// execute and bridge.
#[derive(Debug)]
pub struct SDUPIVirtualMachine {
    ai_optimizer: AIContractOptimizer,
    quantum_crypto: QuantumSafeCrypto,
    cross_chain_bridge: CrossChainBridge,
    parallel_executor: ParallelContractExecutor,
    real_time_optimizer: RealTimeOptimizer,
    contract_storage: Registry<ContractState>,
    config: SDUPIContractEngineConfig,
}

impl SDUPIVirtualMachine {
    /// The engine's configuration.
    pub closed spec fn config(&self) -> SDUPIContractEngineConfig {
        self.config
    }

    /// The state of the deployed contracts by the bytes of their addresses.
    pub closed spec fn contracts(&self) -> Map<Seq<u8>, ContractState> {
        self.contract_storage@
    }

    /// The engine's invariant.
    pub closed spec fn wf(&self) -> bool {
        self.contract_storage.wf()
    }

    /// Creates an engine without contracts.
    pub fn new(config: SDUPIContractEngineConfig) -> (result: Result<
        SDUPIVirtualMachine,
        SDUPIError,
    >)
        ensures
            result matches Ok(vm) && vm.wf() && vm.config() == config && vm.contracts()
                == Map::<Seq<u8>, ContractState>::empty(),
    {
        Ok(
            SDUPIVirtualMachine {
                ai_optimizer: AIContractOptimizer::new(),
                quantum_crypto: QuantumSafeCrypto::new(),
                cross_chain_bridge: CrossChainBridge::new(),
                parallel_executor: ParallelContractExecutor::new(),
                real_time_optimizer: RealTimeOptimizer::new(),
                contract_storage: Registry::new(),
                config,
            },
        )
    }

    /// The code that is handed to the compiler when a contract is deployed.
    pub fn prepare_code(&self, contract_code: Vec<u8>) -> (result: Result<Vec<u8>, SDUPIError>)
        ensures
            result matches Ok(code) && code@ == contract_code@,
    {
        if self.config.enable_ai_optimization {
            self.ai_optimizer.optimize_contract(contract_code.as_slice())
        } else {
            Ok(contract_code)
        }
    }

    /// Stores the initial state of a contract whose code has been compiled,
    /// under the address that belongs to its name. A contract that stood at
    /// the address is replaced.
    pub fn deploy_contract(&mut self, contract_name: String, initial_state: ContractState) -> (result:
        Result<ContractAddress, SDUPIError>)
        requires
            old(self).wf(),
        ensures
            final(self).wf(),
            final(self).config() == old(self).config(),
            result matches Ok(address) && address@ == "0x"@ + contract_name@
                && final(self).contracts() == old(self).contracts().insert(encode_utf8(address@), initial_state),
    {
        let address = ContractAddress::new(contract_name.as_str());
        let key = copy_bytes(address.as_str().as_bytes());
        self.contract_storage.insert(key, initial_state);
        Ok(address)
    }

    /// Whether a contract is deployed at an address.
    pub fn is_deployed(&self, address: &ContractAddress) -> (deployed: bool)
        requires
            self.wf(),
        ensures
            deployed == self.contracts().contains_key(encode_utf8(address@)),
    {
        self.contract_storage.contains_key(address.as_str().as_bytes())
    }

    /// Executes a method of a contract: in parallel where the configuration
    /// allows, else in sequence.
    pub fn execute_contract(
        &self,
        contract_address: &ContractAddress,
        method: String,
        params: Vec<u8>,
        gas_limit: u64,
    ) -> (result: Result<ContractExecutionResult, SDUPIError>)
        ensures
            result matches Ok(r) && r.success && if self.config().enable_parallel_execution {
                r.gas_used == gas_limit / 4 && r.return_data@ == encode_utf8(
                    parallel_return_text(method@, contract_address@),
                ) && r.execution_time == 5
            } else {
                r.gas_used == gas_limit / 2 && r.return_data@ == encode_utf8(
                    sequential_return_text(method@, contract_address@),
                ) && r.execution_time == 10
            },
    {
        let optimized = if self.config.enable_real_time_optimization {
            match self.real_time_optimizer.optimize_execution(
                contract_address,
                method.as_str(),
                params.as_slice(),
            ) {
                Ok(optimized) => optimized,
                Err(e) => {
                    return Err(e);
                },
            }
        } else {
            params
        };
        if self.config.enable_parallel_execution {
            self.parallel_executor.execute_parallel(
                contract_address,
                method.as_str(),
                optimized.as_slice(),
                gas_limit,
            )
        } else {
            self.execute_sequential(
                contract_address,
                method.as_str(),
                optimized.as_slice(),
                gas_limit,
            )
        }
    }

    /// Runs a call in sequence. The simulated run uses half of the gas limit
    /// and takes 10 milliseconds.
    pub fn execute_sequential(
        &self,
        contract_address: &ContractAddress,
        method: &str,
        _params: &[u8],
        gas_limit: u64,
    ) -> (result: Result<ContractExecutionResult, SDUPIError>)
        ensures
            result matches Ok(r) && r.success && r.gas_used == gas_limit / 2 && r.return_data@
                == encode_utf8(sequential_return_text(method@, contract_address@))
                && r.execution_time == 10,
    {
        let text = String::from_str("Executed ").concat(method).concat(" on ").concat(
            contract_address.as_str(),
        );
        Ok(
            ContractExecutionResult {
                success: true,
                gas_used: gas_limit / 2,
                return_data: copy_bytes(text.as_str().as_bytes()),
                execution_time: 10,
            },
        )
    }

    /// Calls a contract on another chain, where the configuration allows
    /// calls across chains.
    pub fn execute_cross_chain_call(
        &self,
        source_chain: ChainId,
        target_chain: ChainId,
        contract_address: &ContractAddress,
        method: String,
        params: Vec<u8>,
    ) -> (result: Result<CrossChainResult, SDUPIError>)
        ensures
            result is Ok <==> self.config().enable_cross_chain,
            result matches Ok(r) ==> r.success && r.source_chain == source_chain && r.target_chain
                == target_chain && r.execution_time == 50 && exists|id: u128|
                r.transaction_hash@ == "cross_chain_tx_"@ + #[trigger] uuid_hyphenated(id),
            result matches Err(e) ==> e matches SDUPIError::WASMExecution(m) && m@
                == "Cross-chain calls not enabled"@,
    {
        if !self.config.enable_cross_chain {
            return Err(
                SDUPIError::WASMExecution(String::from_str("Cross-chain calls not enabled")),
            );
        }
        self.cross_chain_bridge.execute_atomic_swap(
            source_chain,
            target_chain,
            contract_address,
            method,
            params,
        )
    }
}

} // verus!
