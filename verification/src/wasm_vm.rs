//! The registry of a WebAssembly virtual machine: configuration, contract
//! metadata, the checks that precede a call, and a sample payment contract.
//!
//! Compiling and running WebAssembly is the work of an engine outside this
//! library. The functions here decide what may be deployed and called and
//! assemble the results.

use vstd::prelude::*;
use vstd::bytes::*;
use crate::ambient::{fresh_id, uuid_hyphenated, uuid_text};
use crate::registry::Registry;
use crate::text::{decimal_digits, decimal_string, same_text};

verus! {

/// Limits of the virtual machine.
#[derive(Debug, Clone, Copy, PartialEq, Eq, Structural)]
pub struct WASMConfig {
    /// Largest memory in bytes.
    pub max_memory_size: usize,
    /// Longest execution in seconds.
    pub max_execution_time: u64,
    pub max_stack_size: usize,
    pub enable_wasi: bool,
    pub enable_nn: bool,
}

impl Default for WASMConfig {
    fn default() -> (c: WASMConfig)
        ensures
            c == (WASMConfig {
                max_memory_size: 67_108_864,
                max_execution_time: 30,
                max_stack_size: 1_048_576,
                enable_wasi: true,
                enable_nn: false,
            }),
    {
        WASMConfig {
            max_memory_size: 67_108_864,
            max_execution_time: 30,
            max_stack_size: 1_048_576,
            enable_wasi: true,
            enable_nn: false,
        }
    }
}

/// Who may call a function.
#[derive(Debug, Clone, Copy, PartialEq, Eq, Structural)]
pub enum FunctionVisibility {
    Public,
    Private,
    View,
}

/// A parameter of a contract function.
#[derive(Debug)]
pub struct FunctionParameter {
    pub name: String,
    pub parameter_type: String,
    pub description: Option<String>,
}

/// The text of an optional string.
pub open spec fn optional_text(text: Option<String>) -> Option<Seq<char>> {
    match text {
        Some(t) => Some(t@),
        None => None,
    }
}

/// Copies an optional string.
fn copy_optional(text: &Option<String>) -> (copy: Option<String>)
    ensures
        optional_text(copy) == optional_text(*text),
{
    match text {
        Some(t) => Some(t.clone()),
        None => None,
    }
}

/// The mathematical value of a parameter.
pub ghost struct ParameterView {
    pub name: Seq<char>,
    pub parameter_type: Seq<char>,
    pub description: Option<Seq<char>>,
}

impl View for FunctionParameter {
    type V = ParameterView;

    open spec fn view(&self) -> ParameterView {
        ParameterView {
            name: self.name@,
            parameter_type: self.parameter_type@,
            description: optional_text(self.description),
        }
    }
}

impl Clone for FunctionParameter {
    fn clone(&self) -> (copy: FunctionParameter)
        ensures
            copy@ == self@,
    {
        FunctionParameter {
            name: self.name.clone(),
            parameter_type: self.parameter_type.clone(),
            description: copy_optional(&self.description),
        }
    }
}

/// A function of a contract.
#[derive(Debug)]
pub struct ContractFunction {
    pub name: String,
    pub parameters: Vec<FunctionParameter>,
    pub return_type: Option<String>,
    pub visibility: FunctionVisibility,
}

/// Description of a contract.
#[derive(Debug)]
pub struct ContractMetadata {
    pub contract_id: u128,
    pub name: String,
    pub version: String,
    pub author: String,
    pub description: String,
    pub functions: Vec<ContractFunction>,
    /// Schema of the contract's state, as JSON text.
    pub state_schema: String,
}

/// The mathematical value of a function: its name, its parameters, the
/// type of what it returns, and its visibility.
pub ghost struct FunctionSignature {
    pub name: Seq<char>,
    pub parameters: Seq<ParameterView>,
    pub return_type: Option<Seq<char>>,
    pub visibility: FunctionVisibility,
}

/// The mathematical value of a contract's description.
pub ghost struct ContractMetadataView {
    pub contract_id: u128,
    pub name: Seq<char>,
    pub version: Seq<char>,
    pub author: Seq<char>,
    pub description: Seq<char>,
    pub functions: Seq<FunctionSignature>,
    pub state_schema: Seq<char>,
}

impl View for ContractFunction {
    type V = FunctionSignature;

    open spec fn view(&self) -> FunctionSignature {
        FunctionSignature {
            name: self.name@,
            parameters: Seq::new(self.parameters@.len(), |i: int| self.parameters@[i]@),
            return_type: optional_text(self.return_type),
            visibility: self.visibility,
        }
    }
}

impl View for ContractMetadata {
    type V = ContractMetadataView;

    open spec fn view(&self) -> ContractMetadataView {
        ContractMetadataView {
            contract_id: self.contract_id,
            name: self.name@,
            version: self.version@,
            author: self.author@,
            description: self.description@,
            functions: Seq::new(self.functions@.len(), |i: int| self.functions@[i]@),
            state_schema: self.state_schema@,
        }
    }
}

impl Clone for ContractFunction {
    fn clone(&self) -> (copy: ContractFunction)
        ensures
            copy@ == self@,
    {
        let mut parameters: Vec<FunctionParameter> = Vec::new();
        let mut i: usize = 0;
        while i < self.parameters.len()
            invariant
                i <= self.parameters@.len(),
                parameters@.len() == i,
                forall|j: int| 0 <= j < i ==> (#[trigger] parameters@[j])@ == self.parameters@[j]@,
            decreases self.parameters@.len() - i,
        {
            parameters.push(self.parameters[i].clone());
            i += 1;
        }
        let copy = ContractFunction {
            name: self.name.clone(),
            parameters,
            return_type: copy_optional(&self.return_type),
            visibility: self.visibility,
        };
        assert(copy@.parameters =~= self@.parameters);
        copy
    }
}

impl Clone for ContractMetadata {
    fn clone(&self) -> (copy: ContractMetadata)
        ensures
            copy@ == self@,
    {
        let mut functions: Vec<ContractFunction> = Vec::new();
        let mut i: usize = 0;
        while i < self.functions.len()
            invariant
                i <= self.functions@.len(),
                functions@.len() == i,
                forall|j: int| 0 <= j < i ==> (#[trigger] functions@[j])@ == self.functions@[j]@,
            decreases self.functions@.len() - i,
        {
            functions.push(self.functions[i].clone());
            i += 1;
        }
        let copy = ContractMetadata {
            contract_id: self.contract_id,
            name: self.name.clone(),
            version: self.version.clone(),
            author: self.author.clone(),
            description: self.description.clone(),
            functions,
            state_schema: self.state_schema.clone(),
        };
        assert(copy@.functions =~= self@.functions);
        copy
    }
}

impl ContractMetadataView {
    /// Whether the contract has a function with this name.
    pub open spec fn has_function(self, name: Seq<char>) -> bool {
        exists|i: int| 0 <= i < self.functions.len() && (#[trigger] self.functions[i]).name == name
    }

    /// Position of the first function with this name.
    pub open spec fn first_function(self, name: Seq<char>) -> int {
        choose|i: int|
            0 <= i < self.functions.len() && (#[trigger] self.functions[i]).name == name && forall|
                j: int,
            | 0 <= j < i ==> (#[trigger] self.functions[j]).name != name
    }
}

/// What a call runs in.
#[derive(Debug)]
pub struct ExecutionContext {
    pub contract_id: u128,
    pub caller: String,
    pub transaction_id: u128,
    pub block_number: u64,
    pub block_timestamp: u64,
    pub gas_limit: u64,
    pub gas_price: u64,
}

/// A change of one key of a contract's state.
#[derive(Debug)]
pub struct StateChange {
    pub key: String,
    pub old_value: Option<Vec<u8>>,
    pub new_value: Option<Vec<u8>>,
}

/// Outcome of a call.
#[derive(Debug)]
pub struct ExecutionResult {
    pub success: bool,
    pub return_value: Option<Vec<u8>>,
    pub gas_used: u64,
    pub execution_time_ms: u64,
    pub error_message: Option<String>,
    pub state_changes: Vec<StateChange>,
}

/// Errors of the virtual machine.
#[derive(Debug)]
pub enum WASMError {
    /// The engine failed, with its message.
    Engine(String),
    ContractNotFound(String),
    FunctionNotFound(String),
    AccessDenied(String),
    Validation(String),
    Execution(String),
    Internal(String),
}

impl WASMError {
    /// The text shown for the error.
    pub open spec fn spec_message(self) -> Seq<char> {
        match self {
            WASMError::Engine(s) => "WASM engine error: "@ + s@,
            WASMError::ContractNotFound(s) => "Contract not found: "@ + s@,
            WASMError::FunctionNotFound(s) => "Function not found: "@ + s@,
            WASMError::AccessDenied(s) => "Access denied: "@ + s@,
            WASMError::Validation(s) => "Validation error: "@ + s@,
            WASMError::Execution(s) => "Execution error: "@ + s@,
            WASMError::Internal(s) => "Internal error: "@ + s@,
        }
    }

    /// Renders the error as text.
    pub fn message(&self) -> (text: String)
        ensures
            text@ == self.spec_message(),
    {
        match self {
            WASMError::Engine(s) => String::from_str("WASM engine error: ").concat(s.as_str()),
            WASMError::ContractNotFound(s) => String::from_str("Contract not found: ").concat(
                s.as_str(),
            ),
            WASMError::FunctionNotFound(s) => String::from_str("Function not found: ").concat(
                s.as_str(),
            ),
            WASMError::AccessDenied(s) => String::from_str("Access denied: ").concat(s.as_str()),
            WASMError::Validation(s) => String::from_str("Validation error: ").concat(s.as_str()),
            WASMError::Execution(s) => String::from_str("Execution error: ").concat(s.as_str()),
            WASMError::Internal(s) => String::from_str("Internal error: ").concat(s.as_str()),
        }
    }
}

/// The key under which a contract is registered.
pub open spec fn contract_key(id: u128) -> Seq<u8> {
    spec_u128_to_le_bytes(id)
}

/// How the machine answers a request to call a function of a contract.
pub ghost enum CallDecision {
    /// No contract with this identifier is registered.
    UnknownContract,
    /// The contract has no function with this name.
    UnknownFunction,
    /// The function is private.
    Private,
    /// The call may proceed.
    Allowed,
}

/// The part of the text of a limit violation that names the two numbers.
pub open spec fn limit_text(what: Seq<char>, value: nat, limit: nat) -> Seq<char> {
    what + decimal_digits(value) + " exceeds limit "@ + decimal_digits(limit)
}

/// The registry of deployed contracts with the machine's limits.
#[derive(Debug)]
pub struct WASMVM {
    config: WASMConfig,
    contracts: Registry<ContractMetadata>,
}

impl WASMVM {
    /// The machine's limits.
    pub closed spec fn config(&self) -> WASMConfig {
        self.config
    }

    /// The registered contracts by their keys.
    pub closed spec fn contracts(&self) -> Map<Seq<u8>, ContractMetadata> {
        self.contracts@
    }

    /// The registered contracts in the order of their registration.
    pub closed spec fn listing(&self) -> Seq<ContractMetadata> {
        self.contracts.values()
    }

    /// The machine's invariant.
    pub closed spec fn wf(&self) -> bool {
        self.contracts.wf()
    }

    /// Whether a contract is registered.
    pub open spec fn registered(&self, id: u128) -> bool {
        self.contracts().contains_key(contract_key(id))
    }

    /// The description of a registered contract.
    pub open spec fn metadata_of(&self, id: u128) -> ContractMetadata {
        self.contracts()[contract_key(id)]
    }

    /// Creates a machine without contracts.
    pub fn new(config: WASMConfig) -> (result: Result<WASMVM, WASMError>)
        ensures
            result matches Ok(vm) && vm.wf() && vm.config() == config && vm.contracts()
                == Map::<Seq<u8>, ContractMetadata>::empty(),
    {
        Ok(WASMVM { config, contracts: Registry::new() })
    }

    /// Checks the sizes of a module against the limits: the initial size of
    /// each memory against the largest memory, then the size of each function
    /// body against the largest stack. The first size over its limit is
    /// reported.
    pub fn validate_module(&self, memory_sizes: &[u32], code_sizes: &[usize]) -> (result: Result<
        (),
        WASMError,
    >)
        ensures
            result is Ok <==> (forall|i: int|
                0 <= i < memory_sizes@.len() ==> memory_sizes@[i] <= self.config().max_memory_size)
                && (forall|i: int|
                0 <= i < code_sizes@.len() ==> code_sizes@[i] <= self.config().max_stack_size),
            result matches Err(e) ==> e matches WASMError::Validation(_),
    {
        let mut i: usize = 0;
        while i < memory_sizes.len()
            invariant
                i <= memory_sizes@.len(),
                forall|j: int| 0 <= j < i ==> memory_sizes@[j] <= self.config.max_memory_size,
            decreases memory_sizes@.len() - i,
        {
            if memory_sizes[i] as usize > self.config.max_memory_size {
                let text = String::from_str("Memory size ").concat(
                    decimal_string(memory_sizes[i] as u64).as_str(),
                ).concat(" exceeds limit ").concat(
                    decimal_string(self.config.max_memory_size as u64).as_str(),
                );
                return Err(WASMError::Validation(text));
            }
            i += 1;
        }
        let mut k: usize = 0;
        while k < code_sizes.len()
            invariant
                k <= code_sizes@.len(),
                forall|j: int|
                    0 <= j < memory_sizes@.len() ==> memory_sizes@[j]
                        <= self.config.max_memory_size,
                forall|j: int| 0 <= j < k ==> code_sizes@[j] <= self.config.max_stack_size,
            decreases code_sizes@.len() - k,
        {
            if code_sizes[k] > self.config.max_stack_size {
                let text = String::from_str("Code size ").concat(
                    decimal_string(code_sizes[k] as u64).as_str(),
                ).concat(" exceeds limit ").concat(
                    decimal_string(self.config.max_stack_size as u64).as_str(),
                );
                return Err(WASMError::Validation(text));
            }
            k += 1;
        }
        Ok(())
    }

    /// Registers a contract whose module has been compiled and validated. A
    /// contract that was registered under the identifier is replaced.
    pub fn deploy_contract(&mut self, metadata: ContractMetadata) -> (result: Result<
        u128,
        WASMError,
    >)
        requires
            old(self).wf(),
        ensures
            final(self).wf(),
            final(self).config() == old(self).config(),
            result == Ok::<u128, WASMError>(metadata.contract_id),
            final(self).contracts() == old(self).contracts().insert(
                contract_key(metadata.contract_id),
                metadata,
            ),
    {
        let id = metadata.contract_id;
        let key = u128_to_le_bytes(id);
        self.contracts.insert(key, metadata);
        Ok(id)
    }

    /// The answer to a request to call a function of a contract.
    pub open spec fn call_decision(&self, id: u128, function_name: Seq<char>) -> CallDecision {
        if !self.registered(id) {
            CallDecision::UnknownContract
        } else if !self.metadata_of(id)@.has_function(function_name) {
            CallDecision::UnknownFunction
        } else if self.metadata_of(id)@.functions[self.metadata_of(id)@.first_function(
            function_name,
        )].visibility == FunctionVisibility::Private {
            CallDecision::Private
        } else {
            CallDecision::Allowed
        }
    }

    /// Decides whether a function of a contract may be called: the contract
    /// must be registered, it must have a function with the name, and the
    /// first such function must not be private.
    pub fn authorize_call(&self, contract_id: u128, function_name: &str) -> (result: Result<
        (),
        WASMError,
    >)
        requires
            self.wf(),
        ensures
            match self.call_decision(contract_id, function_name@) {
                CallDecision::UnknownContract => result matches Err(WASMError::ContractNotFound(m))
                    && m@ == "Contract "@ + uuid_hyphenated(contract_id) + " not found"@,
                CallDecision::UnknownFunction => result matches Err(WASMError::FunctionNotFound(m))
                    && m@ == "Function "@ + function_name@ + " not found"@,
                CallDecision::Private => result matches Err(WASMError::AccessDenied(m)) && m@
                    == "Function is private"@,
                CallDecision::Allowed => result is Ok,
            },
    {
        let key = u128_to_le_bytes(contract_id);
        match self.contracts.get(key.as_slice()) {
            None => {
                let id_text = uuid_text(contract_id);
                Err(
                    WASMError::ContractNotFound(
                        String::from_str("Contract ").concat(id_text.as_str()).concat(
                            " not found",
                        ),
                    ),
                )
            },
            Some(metadata) => {
                let mut i: usize = 0;
                while i < metadata.functions.len()
                    invariant
                        i <= metadata.functions@.len(),
                        self.registered(contract_id),
                        *metadata == self.metadata_of(contract_id),
                        forall|j: int| 0 <= j < i ==> (#[trigger] metadata@.functions[j]).name
                            != function_name@,
                    decreases metadata.functions@.len() - i,
                {
                    if same_text(metadata.functions[i].name.as_str(), function_name) {
                        proof {
                            let view = metadata@;
                            assert(view.functions[i as int].name == function_name@);
                            assert(view.has_function(function_name@));
                            let here = i as int;
                            assert(0 <= here < view.functions.len() && view.functions[here].name
                                == function_name@ && forall|j: int|
                                0 <= j < here ==> (#[trigger] view.functions[j]).name
                                    != function_name@);
                            let first = view.first_function(function_name@);
                            assert(0 <= first < view.functions.len() && view.functions[first].name
                                == function_name@ && forall|j: int|
                                0 <= j < first ==> (#[trigger] view.functions[j]).name
                                    != function_name@);
                            assert(first == i);
                        }
                        if metadata.functions[i].visibility == FunctionVisibility::Private {
                            return Err(
                                WASMError::AccessDenied(String::from_str("Function is private")),
                            );
                        }
                        return Ok(());
                    }
                    i += 1;
                }
                Err(
                    WASMError::FunctionNotFound(
                        String::from_str("Function ").concat(function_name).concat(" not found"),
                    ),
                )
            },
        }
    }

    /// Assembles the result of a call from what the engine returned and the
    /// time the call took.
    pub fn execution_result(outcome: Result<Vec<u8>, WASMError>, execution_time_ms: u64) -> (result:
        ExecutionResult)
        ensures
            result.success == outcome is Ok,
            result.gas_used == 0,
            result.execution_time_ms == execution_time_ms,
            result.state_changes@.len() == 0,
            match outcome {
                Ok(value) => result.return_value == Some(value) && result.error_message is None,
                Err(e) => result.return_value is None && (result.error_message matches Some(m)
                    && m@ == e.spec_message()),
            },
    {
        match outcome {
            Ok(value) => ExecutionResult {
                success: true,
                return_value: Some(value),
                gas_used: 0,
                execution_time_ms,
                error_message: None,
                state_changes: Vec::new(),
            },
            Err(e) => ExecutionResult {
                success: false,
                return_value: None,
                gas_used: 0,
                execution_time_ms,
                error_message: Some(e.message()),
                state_changes: Vec::new(),
            },
        }
    }

    /// A copy of the description of a contract.
    pub fn get_contract_metadata(&self, contract_id: u128) -> (result: Result<
        Option<ContractMetadata>,
        WASMError,
    >)
        requires
            self.wf(),
        ensures
            result matches Ok(found) && (found is Some <==> self.registered(contract_id)) && (
            found matches Some(m) ==> m@ == self.metadata_of(contract_id)@),
    {
        let key = u128_to_le_bytes(contract_id);
        match self.contracts.get(key.as_slice()) {
            Some(metadata) => Ok(Some(metadata.clone())),
            None => Ok(None),
        }
    }

    /// Copies of the descriptions of all contracts, in the order of their
    /// registration.
    pub fn list_contracts(&self) -> (result: Result<Vec<ContractMetadata>, WASMError>)
        requires
            self.wf(),
        ensures
            result matches Ok(list) && list@.len() == self.listing().len() && forall|i: int|
                0 <= i < list@.len() ==> (#[trigger] list@[i])@ == self.listing()[i]@,
    {
        let mut list: Vec<ContractMetadata> = Vec::new();
        let mut i: usize = 0;
        while i < self.contracts.len()
            invariant
                i <= self.contracts.values().len(),
                list@.len() == i,
                forall|j: int| 0 <= j < i ==> (#[trigger] list@[j])@ == self.contracts.values()[j]@,
            decreases self.contracts.values().len() - i,
        {
            list.push(self.contracts.value_at(i).clone());
            i += 1;
        }
        Ok(list)
    }

    /// Removes a contract. Nothing changes when it is not registered.
    pub fn remove_contract(&mut self, contract_id: u128) -> (result: Result<(), WASMError>)
        requires
            old(self).wf(),
        ensures
            final(self).wf(),
            result is Ok,
            final(self).config() == old(self).config(),
            final(self).contracts() == old(self).contracts().remove(contract_key(contract_id)),
            !final(self).registered(contract_id),
    {
        let key = u128_to_le_bytes(contract_id);
        self.contracts.remove(key.as_slice());
        Ok(())
    }
}

/// A balance of the payment contract.
#[derive(Debug)]
pub struct Balance {
    pub address: String,
    pub amount: u64,
}

/// A payment recorded by the payment contract.
#[derive(Debug)]
pub struct TransactionRecord {
    pub transaction_id: u128,
    pub from: String,
    pub to: String,
    pub amount: u64,
    pub timestamp: u64,
}

/// A sample contract for payments between two parties.
#[derive(Debug)]
pub struct P2PPaymentContract {
    balances: Vec<Balance>,
    transactions: Vec<TransactionRecord>,
    metadata: ContractMetadata,
}

/// The schema of the payment contract's state.
pub open spec fn payment_state_schema() -> Seq<char> {
    "{\"type\":\"object\",\"properties\":{\"balances\":{\"type\":\"object\",\"additionalProperties\":{\"type\":\"number\"}},\"transactions\":{\"type\":\"array\",\"items\":{\"type\":\"object\",\"properties\":{\"transaction_id\":{\"type\":\"string\"},\"from\":{\"type\":\"string\"},\"to\":{\"type\":\"string\"},\"amount\":{\"type\":\"number\"},\"timestamp\":{\"type\":\"number\"}}}}}}"@
}

fn parameter(name: &str, parameter_type: &str, description: &str) -> (p: FunctionParameter)
    ensures
        p.name@ == name@,
        p.parameter_type@ == parameter_type@,
        p.description matches Some(d) && d@ == description@,
{
    FunctionParameter {
        name: String::from_str(name),
        parameter_type: String::from_str(parameter_type),
        description: Some(String::from_str(description)),
    }
}

impl P2PPaymentContract {
    /// The contract's description.
    pub closed spec fn metadata_view(&self) -> ContractMetadataView {
        self.metadata@
    }

    /// Number of balances held.
    pub closed spec fn balance_count(&self) -> nat {
        self.balances@.len()
    }

    /// Number of payments recorded.
    pub closed spec fn transaction_count(&self) -> nat {
        self.transactions@.len()
    }

    /// The description of the payment contract under a given identifier: a
    /// public function `transfer` with a recipient and an amount, and a view
    /// function `get_balance` with an address.
    pub open spec fn description_of(contract_id: u128) -> ContractMetadataView {
        ContractMetadataView {
            contract_id,
            name: "P2P Payment Contract"@,
            version: "1.0.0"@,
            author: "SDUPI Team"@,
            description: "Simple P2P payment contract for SDUPI blockchain"@,
            functions: seq![
                FunctionSignature {
                    name: "transfer"@,
                    parameters: seq![
                        ParameterView {
                            name: "to"@,
                            parameter_type: "string"@,
                            description: Some("Recipient address"@),
                        },
                        ParameterView {
                            name: "amount"@,
                            parameter_type: "u64"@,
                            description: Some("Transfer amount"@),
                        },
                    ],
                    return_type: Some("bool"@),
                    visibility: FunctionVisibility::Public,
                },
                FunctionSignature {
                    name: "get_balance"@,
                    parameters: seq![
                        ParameterView {
                            name: "address"@,
                            parameter_type: "string"@,
                            description: Some("Address to check"@),
                        },
                    ],
                    return_type: Some("u64"@),
                    visibility: FunctionVisibility::View,
                },
            ],
            state_schema: payment_state_schema(),
        }
    }

    /// The payment contract under a given identifier, with an empty state.
    pub fn with_id(contract_id: u128) -> (contract: P2PPaymentContract)
        ensures
            contract.metadata_view() == P2PPaymentContract::description_of(contract_id),
            contract.balance_count() == 0,
            contract.transaction_count() == 0,
    {
        let mut transfer_parameters: Vec<FunctionParameter> = Vec::new();
        transfer_parameters.push(parameter("to", "string", "Recipient address"));
        transfer_parameters.push(parameter("amount", "u64", "Transfer amount"));
        let mut balance_parameters: Vec<FunctionParameter> = Vec::new();
        balance_parameters.push(parameter("address", "string", "Address to check"));
        let mut functions: Vec<ContractFunction> = Vec::new();
        functions.push(
            ContractFunction {
                name: String::from_str("transfer"),
                parameters: transfer_parameters,
                return_type: Some(String::from_str("bool")),
                visibility: FunctionVisibility::Public,
            },
        );
        functions.push(
            ContractFunction {
                name: String::from_str("get_balance"),
                parameters: balance_parameters,
                return_type: Some(String::from_str("u64")),
                visibility: FunctionVisibility::View,
            },
        );
        let metadata = ContractMetadata {
            contract_id,
            name: String::from_str("P2P Payment Contract"),
            version: String::from_str("1.0.0"),
            author: String::from_str("SDUPI Team"),
            description: String::from_str("Simple P2P payment contract for SDUPI blockchain"),
            functions,
            state_schema: String::from_str(
                "{\"type\":\"object\",\"properties\":{\"balances\":{\"type\":\"object\",\"additionalProperties\":{\"type\":\"number\"}},\"transactions\":{\"type\":\"array\",\"items\":{\"type\":\"object\",\"properties\":{\"transaction_id\":{\"type\":\"string\"},\"from\":{\"type\":\"string\"},\"to\":{\"type\":\"string\"},\"amount\":{\"type\":\"number\"},\"timestamp\":{\"type\":\"number\"}}}}}}",
            ),
        };
        proof {
            let wanted = P2PPaymentContract::description_of(contract_id);
            assert(metadata@.functions[0].parameters =~= wanted.functions[0].parameters);
            assert(metadata@.functions[1].parameters =~= wanted.functions[1].parameters);
            assert(metadata@.functions =~= wanted.functions);
        }
        P2PPaymentContract { balances: Vec::new(), transactions: Vec::new(), metadata }
    }

    /// The payment contract under a fresh identifier, with an empty state.
    pub fn new() -> (contract: P2PPaymentContract)
        ensures
            contract.metadata_view() == P2PPaymentContract::description_of(
                contract.metadata_view().contract_id,
            ),
            contract.balance_count() == 0,
            contract.transaction_count() == 0,
    {
        P2PPaymentContract::with_id(fresh_id())
    }

    /// A copy of the contract's description.
    pub fn metadata(&self) -> (metadata: ContractMetadata)
        ensures
            metadata@ == self.metadata_view(),
    {
        self.metadata.clone()
    }

    /// Initializes the contract. The state stays empty.
    pub fn initialize(&mut self, _params: &[u8]) -> (result: Result<(), WASMError>)
        ensures
            result is Ok,
            final(self).metadata_view() == old(self).metadata_view(),
            final(self).balance_count() == old(self).balance_count(),
            final(self).transaction_count() == old(self).transaction_count(),
    {
        Ok(())
    }

    /// Executes a function of the contract: `transfer` answers with the byte
    /// 1, `get_balance` with the number 100 in eight bytes, the highest
    /// first; any other name is not found.
    pub fn execute(&mut self, function_name: &str, _params: &[u8]) -> (result: Result<
        Vec<u8>,
        WASMError,
    >)
        ensures
            final(self).metadata_view() == old(self).metadata_view(),
            final(self).balance_count() == old(self).balance_count(),
            final(self).transaction_count() == old(self).transaction_count(),
            if function_name@ == "transfer"@ {
                result matches Ok(value) && value@ == seq![1u8]
            } else if function_name@ == "get_balance"@ {
                result matches Ok(value) && value@ == seq![0u8, 0u8, 0u8, 0u8, 0u8, 0u8, 0u8, 100u8]
            } else {
                result matches Err(WASMError::FunctionNotFound(m)) && m@ == "Function "@
                    + function_name@ + " not found"@
            },
    {
        if same_text(function_name, "transfer") {
            let mut value: Vec<u8> = Vec::new();
            value.push(1);
            assert(value@ =~= seq![1u8]);
            Ok(value)
        } else if same_text(function_name, "get_balance") {
            let mut value: Vec<u8> = Vec::new();
            value.push(0);
            value.push(0);
            value.push(0);
            value.push(0);
            value.push(0);
            value.push(0);
            value.push(0);
            value.push(100);
            assert(value@ =~= seq![0u8, 0u8, 0u8, 0u8, 0u8, 0u8, 0u8, 100u8]);
            Ok(value)
        } else {
            Err(
                WASMError::FunctionNotFound(
                    String::from_str("Function ").concat(function_name).concat(" not found"),
                ),
            )
        }
    }

    /// The balances held.
    pub fn balances(&self) -> (balances: &Vec<Balance>)
        ensures
            balances@.len() == self.balance_count(),
    {
        &self.balances
    }

    /// The payments recorded.
    pub fn transactions(&self) -> (transactions: &Vec<TransactionRecord>)
        ensures
            transactions@.len() == self.transaction_count(),
    {
        &self.transactions
    }
}

} // verus!
