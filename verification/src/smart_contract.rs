//! Smart contracts: deployment, the checks before an execution, the work of
//! a parallel worker, and bridges to other chains.
//!
//! Running contract code is the work of an engine outside this library. The
//! optimizer and the signatures are stand-ins: optimizing appends marker
//! comments, and a signature is a SHA-256 digest with a suffix.

use vstd::prelude::*;
use vstd::utf8::encode_utf8;
use crate::crypto::{hex_text, sha256, sha256_digest};
use crate::error::SDUPIError;
use crate::registry::{bytes_equal, copy_bytes, Registry};
use crate::text::same_text;

verus! {

/// A named value of a contract's state.
#[derive(Debug)]
pub struct StateValue {
    pub key: String,
    pub value: Vec<u8>,
}

/// A deployed contract.
#[derive(Debug)]
pub struct SmartContract {
    pub id: String,
    pub code: Vec<u8>,
    pub owner: String,
    pub state: Vec<StateValue>,
    pub version: u32,
    pub gas_limit: u64,
    pub execution_count: u64,
    pub last_execution: u64,
    pub ai_optimized: bool,
    pub quantum_safe: bool,
    pub cross_chain_enabled: bool,
}

/// One execution of a contract method.
#[derive(Debug)]
pub struct ContractExecution {
    pub contract_id: String,
    pub method: String,
    pub params: Vec<Vec<u8>>,
    pub gas_used: u64,
    pub result: Vec<u8>,
    /// Duration in microseconds.
    pub execution_time: u64,
    pub parallel_workers: u32,
    pub ai_optimizations: Vec<String>,
}

/// State of a bridge.
#[derive(Debug, Clone, Copy, PartialEq, Eq, Structural)]
pub enum BridgeState {
    Pending,
    Confirmed,
    Executed,
    Failed,
}

/// A bridge to a contract on another chain.
#[derive(Debug)]
pub struct CrossChainBridge {
    pub source_chain: String,
    pub target_chain: String,
    pub contract_address: String,
    pub bridge_state: BridgeState,
    pub quantum_signature: Vec<u8>,
}

/// Measurements of the engine. Rates are in thousandths, times in
/// microseconds.
#[derive(Debug, Clone, Copy, PartialEq, Eq, Structural)]
pub struct PerformanceMetrics {
    pub total_executions: u64,
    pub avg_execution_time: u64,
    pub parallel_efficiency: u64,
    pub ai_optimization_success_rate: u64,
    pub quantum_safe_transactions: u64,
    pub cross_chain_bridges_processed: u64,
}

impl PerformanceMetrics {
    /// Measurements of an engine that has done nothing yet.
    pub fn new() -> (m: PerformanceMetrics)
        ensures
            m == (PerformanceMetrics {
                total_executions: 0,
                avg_execution_time: 0,
                parallel_efficiency: 0,
                ai_optimization_success_rate: 0,
                quantum_safe_transactions: 0,
                cross_chain_bridges_processed: 0,
            }),
    {
        PerformanceMetrics {
            total_executions: 0,
            avg_execution_time: 0,
            parallel_efficiency: 0,
            ai_optimization_success_rate: 0,
            quantum_safe_transactions: 0,
            cross_chain_bridges_processed: 0,
        }
    }

    /// The running mean after one more value: the mean of `count` values,
    /// the last of which is `value`, when the mean of the others was
    /// `mean`. The division rounds down.
    pub open spec fn running_mean(mean: u64, count: u64, value: u64) -> int {
        (mean * (count - 1) + value) / (count as int)
    }

    /// The measurements after one more execution that took
    /// `execution_time` microseconds. The count stops at the largest 64-bit
    /// number; from then on nothing changes.
    pub open spec fn recorded(self, execution_time: u64, success: bool) -> PerformanceMetrics {
        if self.total_executions == u64::MAX {
            self
        } else {
            let count = (self.total_executions + 1) as u64;
            PerformanceMetrics {
                total_executions: count,
                avg_execution_time: PerformanceMetrics::running_mean(
                    self.avg_execution_time,
                    count,
                    execution_time,
                ) as u64,
                ai_optimization_success_rate: if success {
                    PerformanceMetrics::running_mean(
                        self.ai_optimization_success_rate,
                        count,
                        1000,
                    ) as u64
                } else {
                    self.ai_optimization_success_rate
                },
                ..self
            }
        }
    }

    fn mean_with(mean: u64, count: u64, value: u64) -> (next: u64)
        requires
            count >= 1,
        ensures
            next == PerformanceMetrics::running_mean(mean, count, value),
    {
        assert(0 <= mean * (count - 1) <= u64::MAX * u64::MAX) by (nonlinear_arith)
            requires
                0 <= mean <= u64::MAX,
                0 <= count - 1 <= u64::MAX,
        ;
        let total: u128 = mean as u128 * (count - 1) as u128 + value as u128;
        let next: u128 = total / count as u128;
        assert(next <= u64::MAX) by (nonlinear_arith)
            requires
                next == (mean * (count - 1) + value) / (count as int),
                0 <= mean <= u64::MAX,
                0 <= value <= u64::MAX,
                1 <= count,
        {
            assert(mean * (count - 1) + value <= u64::MAX * count) by (nonlinear_arith)
                requires
                    0 <= mean <= u64::MAX,
                    0 <= value <= u64::MAX,
                    1 <= count,
            ;
        }
        next as u64
    }

    /// Records one more execution.
    pub fn record(&mut self, execution_time: u64, success: bool)
        ensures
            *final(self) == old(self).recorded(execution_time, success),
    {
        if self.total_executions == u64::MAX {
            return ;
        }
        self.total_executions = self.total_executions + 1;
        self.avg_execution_time = PerformanceMetrics::mean_with(
            self.avg_execution_time,
            self.total_executions,
            execution_time,
        );
        if success {
            self.ai_optimization_success_rate = PerformanceMetrics::mean_with(
                self.ai_optimization_success_rate,
                self.total_executions,
                1000,
            );
        }
    }
}

/// The marker that an optimization rule appends to the code; nothing for a
/// rule that is not known.
pub open spec fn rule_marker(rule: Seq<char>) -> Seq<u8> {
    if rule == "parallel_execution"@ {
        encode_utf8("// PARALLEL_EXECUTION_ENABLED"@)
    } else if rule == "memory_optimization"@ {
        encode_utf8("// MEMORY_OPTIMIZED"@)
    } else if rule == "gas_optimization"@ {
        encode_utf8("// GAS_OPTIMIZED"@)
    } else if rule == "quantum_safe_optimization"@ {
        encode_utf8("// QUANTUM_SAFE"@)
    } else {
        Seq::<u8>::empty()
    }
}

/// Code with the markers of the first `n` rules appended.
pub open spec fn optimized_upto(code: Seq<u8>, rules: Seq<String>, n: int) -> Seq<u8>
    decreases n,
{
    if n <= 0 {
        code
    } else {
        optimized_upto(code, rules, n - 1) + rule_marker(rules[n - 1]@)
    }
}

/// The optimizer of contract code.
#[derive(Debug)]
pub struct AIOptimizer {
    model_path: String,
    optimization_rules: Vec<String>,
    performance_history: Vec<u64>,
}

fn append(target: &mut Vec<u8>, bytes: &[u8])
    ensures
        final(target)@ == old(target)@ + bytes@,
{
    let mut i: usize = 0;
    while i < bytes.len()
        invariant
            i <= bytes.len(),
            target@ == old(target)@ + bytes@.subrange(0, i as int),
        decreases bytes.len() - i,
    {
        target.push(bytes[i]);
        assert(target@ =~= old(target)@ + bytes@.subrange(0, i + 1));
        i += 1;
    }
    assert(bytes@.subrange(0, bytes.len() as int) =~= bytes@);
}

impl AIOptimizer {
    /// The rules that the optimizer applies, in order.
    pub closed spec fn rules(&self) -> Seq<String> {
        self.optimization_rules@
    }

    /// The optimizer with its four rules.
    pub fn new() -> (optimizer: AIOptimizer)
        ensures
            optimizer.rules().len() == 4,
            optimizer.rules()[0]@ == "parallel_execution"@,
            optimizer.rules()[1]@ == "memory_optimization"@,
            optimizer.rules()[2]@ == "gas_optimization"@,
            optimizer.rules()[3]@ == "quantum_safe_optimization"@,
    {
        let mut optimization_rules: Vec<String> = Vec::new();
        optimization_rules.push(String::from_str("parallel_execution"));
        optimization_rules.push(String::from_str("memory_optimization"));
        optimization_rules.push(String::from_str("gas_optimization"));
        optimization_rules.push(String::from_str("quantum_safe_optimization"));
        AIOptimizer {
            model_path: String::from_str("models/gpt4_optimizer"),
            optimization_rules,
            performance_history: Vec::new(),
        }
    }

    /// Applies every rule in order: each appends its marker to the code.
    pub fn optimize_code(&self, code: &[u8]) -> (result: Result<Vec<u8>, SDUPIError>)
        ensures
            result matches Ok(optimized) && optimized@ == optimized_upto(
                code@,
                self.rules(),
                self.rules().len() as int,
            ),
    {
        let mut optimized = copy_bytes(code);
        let mut i: usize = 0;
        while i < self.optimization_rules.len()
            invariant
                i <= self.optimization_rules@.len(),
                optimized@ == optimized_upto(code@, self.optimization_rules@, i as int),
            decreases self.optimization_rules@.len() - i,
        {
            optimized =
            match self.apply_optimization_rule(
                optimized.as_slice(),
                self.optimization_rules[i].as_str(),
            ) {
                Ok(next) => next,
                Err(e) => {
                    return Err(e);
                },
            };
            i += 1;
        }
        Ok(optimized)
    }

    /// Applies one rule: the code with the rule's marker appended.
    pub fn apply_optimization_rule(&self, code: &[u8], rule: &str) -> (result: Result<
        Vec<u8>,
        SDUPIError,
    >)
        ensures
            result matches Ok(optimized) && optimized@ == code@ + rule_marker(rule@),
    {
        let mut optimized = copy_bytes(code);
        if same_text(rule, "parallel_execution") {
            append(&mut optimized, "// PARALLEL_EXECUTION_ENABLED".as_bytes());
        } else if same_text(rule, "memory_optimization") {
            append(&mut optimized, "// MEMORY_OPTIMIZED".as_bytes());
        } else if same_text(rule, "gas_optimization") {
            append(&mut optimized, "// GAS_OPTIMIZED".as_bytes());
        } else if same_text(rule, "quantum_safe_optimization") {
            append(&mut optimized, "// QUANTUM_SAFE".as_bytes());
        } else {
            assert(optimized@ =~= code@ + Seq::<u8>::empty());
        }
        Ok(optimized)
    }
}

/// The stand-in signature of data: its SHA-256 digest followed by a suffix.
pub open spec fn quantum_signature(data: Seq<u8>) -> Seq<u8> {
    sha256_digest(data) + encode_utf8("_QUANTUM_SAFE"@)
}

/// The stand-in for post-quantum signatures.
#[derive(Debug)]
pub struct QuantumCrypto {
    algorithm: String,
    key_size: u32,
    signature_scheme: String,
}

impl QuantumCrypto {
    /// Name of the algorithm.
    pub closed spec fn algorithm(&self) -> Seq<char> {
        self.algorithm@
    }

    /// Size of the keys in bits.
    pub closed spec fn key_size(&self) -> u32 {
        self.key_size
    }

    /// The settings for Dilithium5.
    pub fn new() -> (crypto: QuantumCrypto)
        ensures
            crypto.algorithm() == "Dilithium5"@,
            crypto.key_size() == 256,
    {
        QuantumCrypto {
            algorithm: String::from_str("Dilithium5"),
            key_size: 256,
            signature_scheme: String::from_str("CRYSTALS-Dilithium"),
        }
    }

    /// Signs data.
    pub fn sign(&self, data: &[u8]) -> (result: Result<Vec<u8>, SDUPIError>)
        ensures
            result matches Ok(signature) && signature@ == quantum_signature(data@),
    {
        let mut signature = sha256(data);
        append(&mut signature, "_QUANTUM_SAFE".as_bytes());
        Ok(signature)
    }

    /// Whether a signature is that of the data.
    pub fn verify(&self, data: &[u8], signature: &[u8]) -> (result: Result<bool, SDUPIError>)
        ensures
            result matches Ok(valid) && valid == (signature@ == quantum_signature(data@)),
    {
        match self.sign(data) {
            Ok(expected) => Ok(bytes_equal(signature, expected.as_slice())),
            Err(e) => Err(e),
        }
    }
}

/// The worker pool that processes executions side by side.
#[derive(Debug)]
pub struct ParallelExecutor {
    worker_count: u32,
}

impl ParallelExecutor {
    /// Number of workers.
    pub closed spec fn workers(&self) -> u32 {
        self.worker_count
    }

    /// A pool of 64 workers.
    pub fn new() -> (executor: ParallelExecutor)
        ensures
            executor.workers() == 64,
    {
        ParallelExecutor { worker_count: 64 }
    }

    /// What a worker does to an execution: it records 100 microseconds, the
    /// number of workers and the optimization it applied.
    pub fn process(&self, execution: ContractExecution) -> (done: ContractExecution)
        ensures
            done.contract_id == execution.contract_id,
            done.method == execution.method,
            done.params == execution.params,
            done.gas_used == execution.gas_used,
            done.result == execution.result,
            done.execution_time == 100,
            done.parallel_workers == self.workers(),
            done.ai_optimizations@.len() == 1,
            done.ai_optimizations@[0]@ == "parallel_execution"@,
    {
        let mut ai_optimizations: Vec<String> = Vec::new();
        ai_optimizations.push(String::from_str("parallel_execution"));
        ContractExecution {
            contract_id: execution.contract_id,
            method: execution.method,
            params: execution.params,
            gas_used: execution.gas_used,
            result: execution.result,
            execution_time: 100,
            parallel_workers: self.worker_count,
            ai_optimizations,
        }
    }
}

/// The identifier of a bridge: source chain, target chain and contract
/// address, joined by underscores.
pub open spec fn bridge_id_text(source: Seq<char>, target: Seq<char>, address: Seq<char>) -> Seq<
    char,
> {
    source + "_"@ + target + "_"@ + address
}

/// The data that a bridge's signature covers: source chain, target chain and
/// contract address, joined by colons.
pub open spec fn bridge_data(source: Seq<char>, target: Seq<char>, address: Seq<char>) -> Seq<u8> {
    encode_utf8(source + ":"@ + target + ":"@ + address)
}

/// How the engine answers a request to execute a method.
pub ghost enum ExecutionDecision {
    /// No such contract is deployed.
    UnknownContract,
    /// There are more parameters than the contract's gas limit allows.
    TooManyParameters,
    /// The execution may proceed.
    Allowed,
}

/// The engine: deployed contracts, bridges and measurements.
#[derive(Debug)]
pub struct SmartContractEngine {
    contracts: Registry<SmartContract>,
    execution_queue: Vec<ContractExecution>,
    cross_chain_bridges: Registry<CrossChainBridge>,
    ai_optimizer: AIOptimizer,
    quantum_crypto: QuantumCrypto,
    parallel_executor: ParallelExecutor,
    performance_metrics: PerformanceMetrics,
}

impl SmartContractEngine {
    /// The deployed contracts by the bytes of their identifiers.
    pub closed spec fn contracts(&self) -> Map<Seq<u8>, SmartContract> {
        self.contracts@
    }

    /// The bridges by the bytes of their identifiers.
    pub closed spec fn bridges(&self) -> Map<Seq<u8>, CrossChainBridge> {
        self.cross_chain_bridges@
    }

    /// The measurements.
    pub closed spec fn metrics(&self) -> PerformanceMetrics {
        self.performance_metrics
    }

    /// Number of parallel workers.
    pub closed spec fn workers(&self) -> u32 {
        self.parallel_executor.workers()
    }

    /// The optimizer's rules.
    pub closed spec fn rules(&self) -> Seq<String> {
        self.ai_optimizer.rules()
    }

    /// The engine's invariant.
    pub closed spec fn wf(&self) -> bool {
        self.contracts.wf() && self.cross_chain_bridges.wf()
    }

    /// Whether a contract is deployed.
    pub open spec fn deployed(&self, contract_id: Seq<char>) -> bool {
        self.contracts().contains_key(encode_utf8(contract_id))
    }

    /// A deployed contract.
    pub open spec fn contract(&self, contract_id: Seq<char>) -> SmartContract {
        self.contracts()[encode_utf8(contract_id)]
    }

    /// Whether a bridge exists.
    pub open spec fn bridged(&self, bridge_id: Seq<char>) -> bool {
        self.bridges().contains_key(encode_utf8(bridge_id))
    }

    /// A bridge.
    pub open spec fn bridge(&self, bridge_id: Seq<char>) -> CrossChainBridge {
        self.bridges()[encode_utf8(bridge_id)]
    }

    /// Creates an engine without contracts and bridges.
    pub fn new() -> (result: Result<SmartContractEngine, SDUPIError>)
        ensures
            result matches Ok(engine) && engine.wf() && engine.contracts() == Map::<
                Seq<u8>,
                SmartContract,
            >::empty() && engine.bridges() == Map::<Seq<u8>, CrossChainBridge>::empty()
                && engine.metrics().total_executions == 0,
    {
        Ok(
            SmartContractEngine {
                contracts: Registry::new(),
                execution_queue: Vec::new(),
                cross_chain_bridges: Registry::new(),
                ai_optimizer: AIOptimizer::new(),
                quantum_crypto: QuantumCrypto::new(),
                parallel_executor: ParallelExecutor::new(),
                performance_metrics: PerformanceMetrics::new(),
            },
        )
    }

    /// Deploys a contract: its identifier is the hexadecimal SHA-256 digest
    /// of its code, and it is stored with its code optimized. A contract
    /// with the same code is replaced.
    pub fn deploy_contract(&mut self, code: Vec<u8>, owner: String, gas_limit: u64) -> (result:
        Result<String, SDUPIError>)
        requires
            old(self).wf(),
        ensures
            final(self).wf(),
            final(self).bridges() == old(self).bridges(),
            final(self).metrics() == old(self).metrics(),
            result matches Ok(id) && id@ == hex_text(sha256_digest(code@)) && final(self).deployed(
                id@,
            ) && ({
                let c = final(self).contract(id@);
                c.id@ == id@ && c.code@ == optimized_upto(
                    code@,
                    old(self).rules(),
                    old(self).rules().len() as int,
                ) && c.owner == owner && c.state@.len() == 0 && c.version == 1 && c.gas_limit
                    == gas_limit && c.execution_count == 0 && c.last_execution == 0
                    && c.ai_optimized && c.quantum_safe && !c.cross_chain_enabled
            }),
    {
        let digest = sha256(code.as_slice());
        let contract_id = crate::crypto::hex_string(digest.as_slice());
        let optimized_code = match self.ai_optimizer.optimize_code(code.as_slice()) {
            Ok(optimized) => optimized,
            Err(e) => {
                return Err(e);
            },
        };
        let contract = SmartContract {
            id: contract_id.clone(),
            code: optimized_code,
            owner,
            state: Vec::new(),
            version: 1,
            gas_limit,
            execution_count: 0,
            last_execution: 0,
            ai_optimized: true,
            quantum_safe: true,
            cross_chain_enabled: false,
        };
        let key = copy_bytes(contract_id.as_str().as_bytes());
        self.contracts.insert(key, contract);
        Ok(contract_id)
    }

    /// The answer to a request to execute a method with parameters.
    pub open spec fn execution_decision(&self, contract_id: Seq<char>, parameters: nat) -> ExecutionDecision {
        if !self.deployed(contract_id) {
            ExecutionDecision::UnknownContract
        } else if parameters > self.contract(contract_id).gas_limit {
            ExecutionDecision::TooManyParameters
        } else {
            ExecutionDecision::Allowed
        }
    }

    /// Checks a request to execute a method and, when it may proceed, hands
    /// back the execution to carry out together with the contract's code.
    pub fn prepare_execution(&self, contract_id: &str, method: &str, params: Vec<Vec<u8>>) -> (result:
        Result<(ContractExecution, Vec<u8>), SDUPIError>)
        requires
            self.wf(),
        ensures
            match self.execution_decision(contract_id@, params@.len()) {
                ExecutionDecision::UnknownContract => result matches Err(
                    SDUPIError::ContractNotFound,
                ),
                ExecutionDecision::TooManyParameters => result matches Err(
                    SDUPIError::GasLimitExceeded,
                ),
                ExecutionDecision::Allowed => result matches Ok((execution, code))
                    && execution.contract_id@ == contract_id@ && execution.method@ == method@
                    && execution.params == params && execution.gas_used == 0
                    && execution.result@.len() == 0 && execution.execution_time == 0
                    && execution.parallel_workers == 1 && execution.ai_optimizations@.len() == 0
                    && code@ == self.contract(contract_id@).code@,
            },
    {
        match self.contracts.get(contract_id.as_bytes()) {
            None => Err(SDUPIError::ContractNotFound),
            Some(contract) => {
                if params.len() as u64 > contract.gas_limit {
                    return Err(SDUPIError::GasLimitExceeded);
                }
                let code = copy_bytes(contract.code.as_slice());
                Ok(
                    (
                        ContractExecution {
                            contract_id: String::from_str(contract_id),
                            method: String::from_str(method),
                            params,
                            gas_used: 0,
                            result: Vec::new(),
                            execution_time: 0,
                            parallel_workers: 1,
                            ai_optimizations: Vec::new(),
                        },
                        code,
                    ),
                )
            },
        }
    }

    /// The result of a method from what the engine's call returned: as many
    /// zero bytes as the first returned number says, or nothing when the
    /// call returned no number or a negative one.
    pub fn convert_result(first_result: Option<i32>) -> (bytes: Vec<u8>)
        ensures
            bytes@.len() == (match first_result {
                Some(n) => if n > 0 {
                    n as int
                } else {
                    0
                },
                None => 0,
            }),
            forall|i: int| 0 <= i < bytes@.len() ==> bytes@[i] == 0,
    {
        let mut bytes: Vec<u8> = Vec::new();
        match first_result {
            Some(n) => {
                if n > 0 {
                    let mut i: i32 = 0;
                    while i < n
                        invariant
                            0 <= i <= n,
                            bytes@.len() == i,
                            forall|j: int| 0 <= j < bytes@.len() ==> bytes@[j] == 0,
                        decreases n - i,
                    {
                        bytes.push(0);
                        i += 1;
                    }
                }
            },
            None => {},
        }
        bytes
    }

    /// Records an execution in the measurements.
    pub fn update_metrics(&mut self, execution_time: u64, success: bool)
        ensures
            final(self).metrics() == old(self).metrics().recorded(execution_time, success),
            final(self).contracts() == old(self).contracts(),
            final(self).bridges() == old(self).bridges(),
            old(self).wf() ==> final(self).wf(),
    {
        self.performance_metrics.record(execution_time, success);
    }

    /// The measurements.
    pub fn get_metrics(&self) -> (metrics: PerformanceMetrics)
        ensures
            metrics == self.metrics(),
    {
        self.performance_metrics
    }

    /// Lets the workers process a list of executions, each in its turn.
    pub fn execute_parallel(&self, executions: Vec<ContractExecution>) -> (result: Result<
        Vec<ContractExecution>,
        SDUPIError,
    >)
        ensures
            result matches Ok(done) && done@.len() == executions@.len() && forall|i: int|
                0 <= i < done@.len() ==> (#[trigger] done@[i]).contract_id
                    == executions@[i].contract_id && done@[i].method == executions@[i].method
                    && done@[i].params == executions@[i].params && done@[i].execution_time == 100
                    && done@[i].parallel_workers == self.workers(),
    {
        let mut executions = executions;
        let ghost all = executions@;
        let mut reversed: Vec<ContractExecution> = Vec::new();
        while executions.len() > 0
            invariant
                executions@.len() + reversed@.len() == all.len(),
                executions@ == all.subrange(0, executions@.len() as int),
                forall|i: int|
                    0 <= i < reversed@.len() ==> (#[trigger] reversed@[i]).contract_id
                        == all[all.len() - 1 - i].contract_id && reversed@[i].method
                        == all[all.len() - 1 - i].method && reversed@[i].params
                        == all[all.len() - 1 - i].params && reversed@[i].execution_time == 100
                        && reversed@[i].parallel_workers == self.workers(),
            decreases executions@.len(),
        {
            let ghost before = executions@;
            let next = executions.pop().unwrap();
            assert(executions@ =~= all.subrange(0, executions@.len() as int));
            reversed.push(self.parallel_executor.process(next));
        }
        let mut done: Vec<ContractExecution> = Vec::new();
        while reversed.len() > 0
            invariant
                done@.len() + reversed@.len() == all.len(),
                forall|i: int|
                    0 <= i < reversed@.len() ==> (#[trigger] reversed@[i]).contract_id
                        == all[all.len() - 1 - i].contract_id && reversed@[i].method
                        == all[all.len() - 1 - i].method && reversed@[i].params
                        == all[all.len() - 1 - i].params && reversed@[i].execution_time == 100
                        && reversed@[i].parallel_workers == self.workers(),
                forall|i: int|
                    0 <= i < done@.len() ==> (#[trigger] done@[i]).contract_id
                        == all[i].contract_id && done@[i].method == all[i].method
                        && done@[i].params == all[i].params && done@[i].execution_time == 100
                        && done@[i].parallel_workers == self.workers(),
            decreases reversed@.len(),
        {
            let next = reversed.pop().unwrap();
            done.push(next);
        }
        Ok(done)
    }

    /// Creates a pending bridge to a contract on another chain, signed over
    /// its three names. A bridge with the same names is replaced.
    pub fn create_cross_chain_bridge(
        &mut self,
        source_chain: String,
        target_chain: String,
        contract_address: String,
    ) -> (result: Result<String, SDUPIError>)
        requires
            old(self).wf(),
        ensures
            final(self).wf(),
            final(self).contracts() == old(self).contracts(),
            final(self).metrics() == old(self).metrics(),
            result matches Ok(id) && id@ == bridge_id_text(
                source_chain@,
                target_chain@,
                contract_address@,
            ) && final(self).bridged(id@) && ({
                let b = final(self).bridge(id@);
                b.source_chain == source_chain && b.target_chain == target_chain
                    && b.contract_address == contract_address && b.bridge_state
                    == BridgeState::Pending && b.quantum_signature@ == quantum_signature(
                    bridge_data(source_chain@, target_chain@, contract_address@),
                )
            }),
    {
        let bridge_id = source_chain.clone().concat("_").concat(target_chain.as_str()).concat(
            "_",
        ).concat(contract_address.as_str());
        let data = source_chain.clone().concat(":").concat(target_chain.as_str()).concat(
            ":",
        ).concat(contract_address.as_str());
        let quantum_signature = match self.quantum_crypto.sign(data.as_str().as_bytes()) {
            Ok(signature) => signature,
            Err(e) => {
                return Err(e);
            },
        };
        let bridge = CrossChainBridge {
            source_chain,
            target_chain,
            contract_address,
            bridge_state: BridgeState::Pending,
            quantum_signature,
        };
        let key = copy_bytes(bridge_id.as_str().as_bytes());
        self.cross_chain_bridges.insert(key, bridge);
        Ok(bridge_id)
    }

    /// Whether the signature of a bridge is that of its three names.
    pub open spec fn bridge_signed(b: CrossChainBridge) -> bool {
        b.quantum_signature@ == quantum_signature(
            bridge_data(b.source_chain@, b.target_chain@, b.contract_address@),
        )
    }

    /// Moves a bridge one step on: a pending bridge with a valid signature
    /// is confirmed, a confirmed one is executed. A bridge in any other
    /// state, or a pending one whose signature is not valid, stays as it is.
    pub fn process_cross_chain_bridge(&mut self, bridge_id: &str) -> (result: Result<
        BridgeState,
        SDUPIError,
    >)
        requires
            old(self).wf(),
        ensures
            final(self).wf(),
            final(self).contracts() == old(self).contracts(),
            final(self).metrics() == old(self).metrics(),
            !old(self).bridged(bridge_id@) ==> (result matches Err(SDUPIError::BridgeNotFound))
                && final(self).bridges() == old(self).bridges(),
            old(self).bridged(bridge_id@) ==> ({
                let b = old(self).bridge(bridge_id@);
                match b.bridge_state {
                    BridgeState::Pending => if SmartContractEngine::bridge_signed(b) {
                        result == Ok::<BridgeState, SDUPIError>(BridgeState::Confirmed)
                            && final(self).bridged(bridge_id@)
                            && final(self).bridge(bridge_id@).bridge_state
                            == BridgeState::Confirmed
                    } else {
                        (result matches Err(SDUPIError::Crypto(_)))
                            && final(self).bridges() == old(self).bridges()
                    },
                    BridgeState::Confirmed => result == Ok::<BridgeState, SDUPIError>(
                        BridgeState::Executed,
                    ) && final(self).bridged(bridge_id@) && final(self).bridge(
                        bridge_id@,
                    ).bridge_state == BridgeState::Executed,
                    _ => (result matches Err(SDUPIError::InvalidBridgeState))
                        && final(self).bridges() == old(self).bridges(),
                }
            }),
    {
        let found = self.cross_chain_bridges.position(bridge_id.as_bytes());
        match found {
            None => Err(SDUPIError::BridgeNotFound),
            Some(i) => {
                proof {
                    self.cross_chain_bridges.lemma_place(i as int);
                }
                let bridge = self.cross_chain_bridges.value_at(i);
                let next = match bridge.bridge_state {
                    BridgeState::Pending => {
                        let data = bridge.source_chain.clone().concat(":").concat(
                            bridge.target_chain.as_str(),
                        ).concat(":").concat(bridge.contract_address.as_str());
                        let valid = match self.quantum_crypto.verify(
                            data.as_str().as_bytes(),
                            bridge.quantum_signature.as_slice(),
                        ) {
                            Ok(valid) => valid,
                            Err(e) => {
                                return Err(e);
                            },
                        };
                        if !valid {
                            return Err(
                                SDUPIError::Crypto(String::from_str("Bridge signature mismatch")),
                            );
                        }
                        BridgeState::Confirmed
                    },
                    BridgeState::Confirmed => BridgeState::Executed,
                    _ => {
                        return Err(SDUPIError::InvalidBridgeState);
                    },
                };
                let updated = CrossChainBridge {
                    source_chain: bridge.source_chain.clone(),
                    target_chain: bridge.target_chain.clone(),
                    contract_address: bridge.contract_address.clone(),
                    bridge_state: next,
                    quantum_signature: copy_bytes(bridge.quantum_signature.as_slice()),
                };
                self.cross_chain_bridges.replace_at(i, updated);
                Ok(next)
            },
        }
    }
}

} // verus!
