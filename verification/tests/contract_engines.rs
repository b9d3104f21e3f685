use sdupi_core::advanced_smart_contract_engine::{
    AIContractOptimizer, AITradingBot, Address, AdvancedDeFiContract, Asset, ChainId,
    ContractAddress, ContractState, CrossChainBridge, CrossChainSwap, ParallelContractExecutor,
    QuantumSafeCrypto, QuantumSafeVault, RealTimeOptimizer, SDUPIContractEngineConfig,
    SDUPIVirtualMachine, YieldFarmingEngine,
};
use sdupi_core::crypto::sha256;
use sdupi_core::error::SDUPIError;
use sdupi_core::smart_contract::{
    AIOptimizer, BridgeState, ContractExecution, ParallelExecutor, PerformanceMetrics,
    QuantumCrypto, SmartContractEngine,
};

fn defi() -> AdvancedDeFiContract {
    AdvancedDeFiContract {
        liquidity_pools: vec![],
        yield_farming: YieldFarmingEngine { strategies: vec![] },
        cross_chain_swaps: CrossChainSwap { bridges: vec![] },
        ai_trading_bot: AITradingBot { model: "GPT-4".to_string() },
        quantum_safe_vaults: QuantumSafeVault { algorithms: vec![] },
    }
}

#[test]
fn test_advanced_smart_contract_engine() {
    let config = SDUPIContractEngineConfig::default();
    let mut vm = SDUPIVirtualMachine::new(config).unwrap();

    // Test contract deployment
    let contract_code = b"advanced_contract_code";
    let contract_name = "TestContract".to_string();
    let initial_state = ContractState {
        data: vec![],
        balance: 1000,
        owner: Address("owner".to_string()),
    };

    assert_eq!(vm.prepare_code(contract_code.to_vec()).unwrap(), contract_code.to_vec());
    let contract_address = vm.deploy_contract(contract_name, initial_state).unwrap();

    assert!(!contract_address.to_text().is_empty());

    // Test contract execution
    let result = vm
        .execute_contract(
            &contract_address,
            "test_method".to_string(),
            b"test_params".to_vec(),
            1000,
        )
        .unwrap();

    assert!(result.success);
    assert!(result.gas_used > 0);
}

#[test]
fn test_advanced_defi_contract() {
    let mut defi_contract = defi();

    // Test AI-optimized swap
    let input = Asset { symbol: "ETH".to_string(), chain: ChainId::Ethereum };
    let output = Asset { symbol: "SDUPI".to_string(), chain: ChainId::SDUPI };

    let swap_result = defi_contract.ai_optimized_swap(input, output, 1000).unwrap();
    assert!(swap_result.success);
    assert_eq!(swap_result.input_amount, 1000);

    // Test quantum-safe transfer
    let recipient = Address("recipient".to_string());
    let transfer_result = defi_contract.quantum_safe_transfer(500, recipient).unwrap();
    assert!(transfer_result.success);
    assert_eq!(transfer_result.amount, 500);

    // Test cross-chain atomic swap
    let asset = Asset { symbol: "BTC".to_string(), chain: ChainId::Ethereum };
    let atomic_swap_result = defi_contract
        .cross_chain_atomic_swap(ChainId::Ethereum, ChainId::SDUPI, asset, 100)
        .unwrap();

    assert!(atomic_swap_result.success);
    assert_eq!(atomic_swap_result.source_chain, ChainId::Ethereum);
    assert_eq!(atomic_swap_result.target_chain, ChainId::SDUPI);
}

#[test]
fn test_smart_contract_deployment() {
    let mut engine = SmartContractEngine::new().unwrap();
    let code = b"fn main() { println!(\"Hello SDUPI!\"); }".to_vec();

    let contract_id = engine.deploy_contract(code, "test_owner".to_string(), 1000).unwrap();
    assert!(!contract_id.is_empty());
}

#[test]
fn test_parallel_execution() {
    let engine = SmartContractEngine::new().unwrap();
    let executions = vec![
        ContractExecution {
            contract_id: "test1".to_string(),
            method: "test".to_string(),
            params: vec![],
            gas_used: 0,
            result: vec![],
            execution_time: 0,
            parallel_workers: 1,
            ai_optimizations: vec![],
        },
        ContractExecution {
            contract_id: "test2".to_string(),
            method: "test".to_string(),
            params: vec![],
            gas_used: 0,
            result: vec![],
            execution_time: 0,
            parallel_workers: 1,
            ai_optimizations: vec![],
        },
    ];

    let results = engine.execute_parallel(executions).unwrap();
    assert_eq!(results.len(), 2);
    assert_eq!(results[0].contract_id, "test1");
    assert_eq!(results[1].contract_id, "test2");
    assert_eq!(results[1].execution_time, 100);
    assert_eq!(results[1].parallel_workers, 64);
    assert_eq!(results[1].ai_optimizations, vec!["parallel_execution"]);
}

#[test]
fn test_cross_chain_bridge() {
    let mut engine = SmartContractEngine::new().unwrap();

    let bridge_id = engine
        .create_cross_chain_bridge(
            "ethereum".to_string(),
            "solana".to_string(),
            "0x123456789".to_string(),
        )
        .unwrap();

    let state = engine.process_cross_chain_bridge(&bridge_id).unwrap();
    assert!(matches!(state, BridgeState::Confirmed));
}

#[test]
fn a_bridge_moves_from_pending_to_executed_and_no_further() {
    let mut engine = SmartContractEngine::new().unwrap();
    let id = engine
        .create_cross_chain_bridge("a".to_string(), "b".to_string(), "c".to_string())
        .unwrap();
    assert_eq!(id, "a_b_c");
    assert!(matches!(
        engine.process_cross_chain_bridge("missing"),
        Err(SDUPIError::BridgeNotFound)
    ));
    assert_eq!(engine.process_cross_chain_bridge(&id).unwrap(), BridgeState::Confirmed);
    assert_eq!(engine.process_cross_chain_bridge(&id).unwrap(), BridgeState::Executed);
    assert!(matches!(
        engine.process_cross_chain_bridge(&id),
        Err(SDUPIError::InvalidBridgeState)
    ));
}

#[test]
fn deployment_optimizes_the_code_and_names_it_by_its_digest() {
    let mut engine = SmartContractEngine::new().unwrap();
    let code = b"code".to_vec();
    let id = engine.deploy_contract(code.clone(), "owner".to_string(), 2).unwrap();
    assert_eq!(id, hex::encode(sha256(&code)));
    let (execution, stored) =
        engine.prepare_execution(&id, "run", vec![vec![1], vec![2]]).unwrap();
    assert_eq!(execution.contract_id, id);
    assert_eq!(execution.method, "run");
    assert_eq!(execution.params, vec![vec![1], vec![2]]);
    assert_eq!(execution.parallel_workers, 1);
    assert_eq!(
        stored,
        b"code// PARALLEL_EXECUTION_ENABLED// MEMORY_OPTIMIZED// GAS_OPTIMIZED// QUANTUM_SAFE"
            .to_vec()
    );
    assert!(matches!(
        engine.prepare_execution(&id, "run", vec![vec![], vec![], vec![]]),
        Err(SDUPIError::GasLimitExceeded)
    ));
    assert!(matches!(
        engine.prepare_execution("else", "run", vec![]),
        Err(SDUPIError::ContractNotFound)
    ));
    assert_eq!(SmartContractEngine::convert_result(Some(3)), vec![0, 0, 0]);
    assert_eq!(SmartContractEngine::convert_result(Some(-3)), Vec::<u8>::new());
    assert_eq!(SmartContractEngine::convert_result(None), Vec::<u8>::new());
}

#[test]
fn optimizer_signatures_and_measurements() {
    let optimizer = AIOptimizer::new();
    assert_eq!(
        optimizer.apply_optimization_rule(b"x", "gas_optimization").unwrap(),
        b"x// GAS_OPTIMIZED".to_vec()
    );
    assert_eq!(optimizer.apply_optimization_rule(b"x", "other").unwrap(), b"x".to_vec());

    let crypto = QuantumCrypto::new();
    let signature = crypto.sign(b"data").unwrap();
    let mut expected = sha256(b"data");
    expected.extend_from_slice(b"_QUANTUM_SAFE");
    assert_eq!(signature, expected);
    assert_eq!(crypto.verify(b"data", &signature).unwrap(), true);
    assert_eq!(crypto.verify(b"datum", &signature).unwrap(), false);

    let done = ParallelExecutor::new().process(ContractExecution {
        contract_id: "c".to_string(),
        method: "m".to_string(),
        params: vec![vec![7]],
        gas_used: 5,
        result: vec![1],
        execution_time: 0,
        parallel_workers: 1,
        ai_optimizations: vec![],
    });
    assert_eq!(done.gas_used, 5);
    assert_eq!(done.result, vec![1]);
    assert_eq!(done.execution_time, 100);
    assert_eq!(done.parallel_workers, 64);

    let mut metrics = PerformanceMetrics::new();
    metrics.record(10, true);
    metrics.record(20, false);
    metrics.record(31, true);
    assert_eq!(metrics.total_executions, 3);
    assert_eq!(metrics.avg_execution_time, 20);
    assert_eq!(metrics.ai_optimization_success_rate, 1000);
    let mut engine = SmartContractEngine::new().unwrap();
    engine.update_metrics(8, true);
    assert_eq!(engine.get_metrics().avg_execution_time, 8);
    assert_eq!(engine.get_metrics().total_executions, 1);
}

#[test]
fn simulated_execution_is_computed_from_the_call() {
    let address = ContractAddress::new("Token");
    assert_eq!(address.to_text(), "0xToken");
    let parallel = ParallelContractExecutor::new()
        .execute_parallel(&address, "mint", b"", 1000)
        .unwrap();
    assert_eq!(parallel.gas_used, 250);
    assert_eq!(parallel.return_data, b"Parallel execution of mint on 0xToken".to_vec());
    assert_eq!(parallel.execution_time, 5);

    let mut config = SDUPIContractEngineConfig::default();
    assert_eq!(config.max_gas_limit, 1_000_000_000);
    assert_eq!(config.execution_timeout, 100);
    config.enable_parallel_execution = false;
    config.enable_cross_chain = false;
    config.enable_ai_optimization = false;
    config.enable_real_time_optimization = false;
    let mut vm = SDUPIVirtualMachine::new(config).unwrap();
    let sequential =
        vm.execute_contract(&address, "mint".to_string(), b"p".to_vec(), 1000).unwrap();
    assert_eq!(sequential.gas_used, 500);
    assert_eq!(sequential.return_data, b"Executed mint on 0xToken".to_vec());
    assert_eq!(sequential.execution_time, 10);
    match vm.execute_cross_chain_call(
        ChainId::Ethereum,
        ChainId::Solana,
        &address,
        "mint".to_string(),
        vec![],
    ) {
        Err(e) => assert_eq!(e.message(), "WASM execution error: Cross-chain calls not enabled"),
        Ok(_) => panic!("allowed"),
    }
    assert!(!vm.is_deployed(&address));
    let state = ContractState { data: vec![], balance: 1, owner: Address("o".to_string()) };
    assert_eq!(vm.deploy_contract("Token".to_string(), state).unwrap(), address);
    assert!(vm.is_deployed(&address));
    assert_eq!(vm.prepare_code(vec![1, 2]).unwrap(), vec![1, 2]);

    let open = SDUPIVirtualMachine::new(SDUPIContractEngineConfig::default()).unwrap();
    let crossed = open
        .execute_cross_chain_call(
            ChainId::Ethereum,
            ChainId::Solana,
            &address,
            "mint".to_string(),
            vec![],
        )
        .unwrap();
    assert!(crossed.success);
    assert_eq!(crossed.execution_time, 50);
    assert!(crossed.transaction_hash.starts_with("cross_chain_tx_"));
    assert_eq!(crossed.transaction_hash.len(), 15 + 36);
}

#[test]
fn defi_operations_and_their_texts() {
    let mut contract = defi();
    let eth = Asset { symbol: "ETH".to_string(), chain: ChainId::Ethereum };
    let dot = Asset { symbol: "DOT".to_string(), chain: ChainId::Polkadot };
    assert_eq!(eth.to_text(), "ETH on Ethereum");
    assert_eq!(ChainId::SDUPI.name(), "SDUPI");
    assert_eq!(ChainId::Solana.name(), "Solana");
    let swap = contract.ai_optimized_swap(eth.clone(), dot, 21).unwrap();
    assert_eq!(swap.output_amount, 42);
    assert_eq!(swap.gas_used, 1000);
    assert_eq!(swap.route.len(), 2);
    assert_eq!(swap.route[0].symbol, "ETH");
    assert_eq!(swap.route[1].symbol, "DOT");
    let too_much = Asset { symbol: "BTC".to_string(), chain: ChainId::Ethereum };
    assert!(contract.ai_optimized_swap(eth.clone(), too_much, u64::MAX / 2 + 1).is_err());

    let transfer = contract.quantum_safe_transfer_as(0x10, 7, Address("bob".to_string())).unwrap();
    assert_eq!(transfer.transaction_hash, "quantum_safe_tx_00000000-0000-0000-0000-000000000010");
    assert_eq!(transfer.encryption_level, "Quantum-Safe");
    assert_eq!(transfer.recipient.to_text(), "bob");
    let swap = contract
        .cross_chain_atomic_swap_as(0x11, ChainId::Solana, ChainId::SDUPI, eth, 3)
        .unwrap();
    assert_eq!(swap.transaction_hash, "atomic_swap_00000000-0000-0000-0000-000000000011");
    assert_eq!(swap.execution_time, 100);
    assert_eq!(swap.amount, 3);
    assert_eq!(
        contract.quantum_safe_vaults.encrypt_transfer(12, &Address("bob".to_string())).unwrap(),
        b"encrypted_12_bob".to_vec()
    );
    let crossed = CrossChainBridge::new()
        .execute_atomic_swap_as(
            1,
            ChainId::Ethereum,
            ChainId::Polkadot,
            &ContractAddress::new("x"),
            "m".to_string(),
            vec![],
        )
        .unwrap();
    assert_eq!(crossed.transaction_hash, "cross_chain_tx_00000000-0000-0000-0000-000000000001");
    assert_eq!(AIContractOptimizer::new().optimize_contract(b"abc").unwrap(), b"abc".to_vec());
    assert_eq!(
        RealTimeOptimizer::new()
            .optimize_execution(&ContractAddress::new("x"), "m", b"params")
            .unwrap(),
        b"params".to_vec()
    );
    let _ = QuantumSafeCrypto::new();
}
