use sdupi_core::network::{
    message_topic, NetworkConfig, NetworkMessage, NodeNetwork, NodeType, PeerInfo,
};
use sdupi_core::crypto::KeyPair;
use sdupi_core::error::SDUPIError;
use sdupi_core::registry::Registry;
use sdupi_core::testnet_deployment::{
    BlockExplorer, BlockExplorerConfig, DeploymentPhase, DeploymentStatus, ExplorerStatus,
    FaucetStatus, MonitoringConfig, MonitoringStatus, MonitoringSystem, NodeMetrics,
    TestnetDeployment, TokenFaucet, TokenFaucetConfig,
};
use sdupi_core::text::{decimal_string, same_text};
use sdupi_core::transaction::Transaction;
use sdupi_core::wasm_vm::{
    ContractFunction, ContractMetadata, FunctionVisibility, P2PPaymentContract, WASMConfig,
    WASMError, WASMVM,
};
use std::time::Duration;

#[test]
fn test_testnet_deployment() {
    let mut deployment = TestnetDeployment::new();
    let result = deployment.deploy_testnet();
    assert!(result.is_ok());
}

#[test]
fn network_stats_count_the_deployed_validators() {
    let mut deployment = TestnetDeployment::new();
    assert!(deployment.deploy_testnet().is_ok());
    let stats = deployment.get_network_stats();
    assert_eq!(stats.total_validators, 3);
    assert_eq!(stats.active_validators, 3);
}

#[test]
fn deployment_goes_through_its_phases() {
    let mut deployment = TestnetDeployment::new();
    assert_eq!(deployment.get_deployment_status(), (DeploymentPhase::Initializing, 0));
    let empty = deployment.get_network_stats();
    assert_eq!(empty.total_validators, 0);
    assert_eq!(empty.total_stake, 0);
    assert_eq!(
        deployment.finalize_deployment(),
        Err("Some components failed to start properly".to_string())
    );
    assert!(deployment.deploy_validators().is_ok());
    assert_eq!(deployment.count_running_validators(), 3);
    assert!(deployment.start_rpc_servers().is_ok());
    assert_eq!(deployment.count_running_servers(), 2);
    assert!(deployment.finalize_deployment().is_err());
    assert!(deployment.launch_block_explorer().is_ok());
    assert!(deployment.setup_monitoring().is_ok());
    assert!(deployment.start_token_faucet().is_ok());
    assert!(deployment.finalize_deployment().is_ok());
    deployment.update_deployment_status(DeploymentPhase::Complete, 100);
    assert_eq!(deployment.get_deployment_status(), (DeploymentPhase::Complete, 100));
    let stats = deployment.get_network_stats();
    assert_eq!(stats.total_stake, 3_000_000);
    assert_eq!(stats.total_rpc_requests, 0);
    assert_eq!(stats.network_uptime, 0);
    // Deploying again replaces the nodes and does not add any.
    assert!(deployment.deploy_testnet().is_ok());
    assert_eq!(deployment.get_network_stats().total_validators, 3);
    assert_eq!(deployment.get_deployment_status(), (DeploymentPhase::Complete, 100));
}

#[test]
fn components_start_with_nothing_done() {
    let explorer = BlockExplorer::new(BlockExplorerConfig {
        url: "u".to_string(),
        api_endpoint: "a".to_string(),
        websocket_endpoint: "w".to_string(),
        indexing_enabled: true,
        search_enabled: false,
    });
    assert!(matches!(explorer.status, ExplorerStatus::Starting));
    assert_eq!(explorer.indexed_blocks, 0);
    assert_eq!(explorer.config.url, "u");
    let monitoring = MonitoringSystem::new(MonitoringConfig {
        prometheus_endpoint: "p".to_string(),
        grafana_dashboard: "g".to_string(),
        alerting_enabled: true,
        log_aggregation: "l".to_string(),
    });
    assert!(matches!(monitoring.status, MonitoringStatus::Starting));
    assert_eq!(monitoring.metrics_collected, 0);
    let config = TokenFaucetConfig {
        endpoint: "e".to_string(),
        daily_limit: 10,
        per_request_limit: 1,
        enabled: true,
    };
    let faucet = TokenFaucet::new_at(config.clone(), 99);
    assert_eq!(faucet.status, FaucetStatus::Starting);
    assert_eq!(faucet.last_reset, 99);
    assert_eq!(TokenFaucet::new(config).total_distributed, 0);
    assert_eq!(NodeMetrics::new().block_height, 0);
    let status = DeploymentStatus::new();
    assert_eq!(status.phase, DeploymentPhase::Initializing);
    assert!(status.errors.is_empty());
}

#[test]
fn test_wasm_vm_creation() {
    let config = WASMConfig::default();
    let vm = WASMVM::new(config);
    assert!(vm.is_ok());
}

#[test]
fn test_contract_metadata() {
    let contract = P2PPaymentContract::new();
    let metadata = contract.metadata();

    assert_eq!(metadata.name, "P2P Payment Contract");
    assert_eq!(metadata.version, "1.0.0");
    assert_eq!(metadata.functions.len(), 2);
}

#[test]
fn test_contract_functions() {
    let contract = P2PPaymentContract::new();
    let metadata = contract.metadata();

    let transfer_function = metadata.functions.iter().find(|f| f.name == "transfer").unwrap();

    assert_eq!(transfer_function.visibility, FunctionVisibility::Public);
    assert_eq!(transfer_function.parameters.len(), 2);
}

fn metadata(id: u128, functions: Vec<(&str, FunctionVisibility)>) -> ContractMetadata {
    ContractMetadata {
        contract_id: id,
        name: "c".to_string(),
        version: "1".to_string(),
        author: "a".to_string(),
        description: "d".to_string(),
        functions: functions
            .into_iter()
            .map(|(name, visibility)| ContractFunction {
                name: name.to_string(),
                parameters: vec![],
                return_type: None,
                visibility,
            })
            .collect(),
        state_schema: "{}".to_string(),
    }
}

#[test]
fn the_machine_decides_which_calls_may_proceed() {
    let mut vm = WASMVM::new(WASMConfig::default()).unwrap();
    let id = 0x22;
    assert_eq!(
        vm.deploy_contract(metadata(
            id,
            vec![
                ("open", FunctionVisibility::Public),
                ("secret", FunctionVisibility::Private),
                ("look", FunctionVisibility::View),
            ],
        ))
        .unwrap(),
        id
    );
    assert!(vm.authorize_call(id, "open").is_ok());
    assert!(vm.authorize_call(id, "look").is_ok());
    match vm.authorize_call(id, "secret") {
        Err(WASMError::AccessDenied(text)) => assert_eq!(text, "Function is private"),
        other => panic!("unexpected answer {:?}", other),
    }
    match vm.authorize_call(id, "none") {
        Err(e) => assert_eq!(e.message(), "Function not found: Function none not found"),
        other => panic!("unexpected answer {:?}", other),
    }
    match vm.authorize_call(1, "open") {
        Err(WASMError::ContractNotFound(text)) => {
            assert_eq!(text, "Contract 00000000-0000-0000-0000-000000000001 not found")
        }
        other => panic!("unexpected answer {:?}", other),
    }
    assert_eq!(vm.get_contract_metadata(id).unwrap().unwrap().functions.len(), 3);
    assert!(vm.get_contract_metadata(1).unwrap().is_none());
    vm.deploy_contract(metadata(0x23, vec![])).unwrap();
    let listed = vm.list_contracts().unwrap();
    assert_eq!(listed.iter().map(|m| m.contract_id).collect::<Vec<_>>(), vec![0x22, 0x23]);
    assert!(vm.remove_contract(id).is_ok());
    assert!(vm.remove_contract(id).is_ok());
    assert!(vm.get_contract_metadata(id).unwrap().is_none());
    assert_eq!(vm.list_contracts().unwrap().len(), 1);
}

#[test]
fn modules_are_checked_against_the_limits() {
    let mut config = WASMConfig::default();
    assert_eq!(config.max_memory_size, 64 * 1024 * 1024);
    assert_eq!(config.max_execution_time, 30);
    assert_eq!(config.max_stack_size, 1024 * 1024);
    assert!(config.enable_wasi);
    assert!(!config.enable_nn);
    config.max_memory_size = 10;
    config.max_stack_size = 5;
    let vm = WASMVM::new(config).unwrap();
    assert!(vm.validate_module(&[10, 3], &[5]).is_ok());
    match vm.validate_module(&[3, 11], &[6]) {
        Err(WASMError::Validation(text)) => assert_eq!(text, "Memory size 11 exceeds limit 10"),
        other => panic!("unexpected answer {:?}", other),
    }
    match vm.validate_module(&[], &[1, 6]) {
        Err(WASMError::Validation(text)) => assert_eq!(text, "Code size 6 exceeds limit 5"),
        other => panic!("unexpected answer {:?}", other),
    }
    let good = WASMVM::execution_result(Ok(vec![1]), 7);
    assert!(good.success);
    assert_eq!(good.return_value, Some(vec![1]));
    assert_eq!(good.execution_time_ms, 7);
    assert_eq!(good.gas_used, 0);
    let bad = WASMVM::execution_result(Err(WASMError::Execution("trap".to_string())), 8);
    assert!(!bad.success);
    assert_eq!(bad.return_value, None);
    assert_eq!(bad.error_message, Some("Execution error: trap".to_string()));
}

#[test]
fn the_payment_contract_answers_its_two_functions() {
    let mut contract = P2PPaymentContract::with_id(5);
    assert_eq!(contract.metadata().contract_id, 5);
    assert_eq!(contract.metadata().author, "SDUPI Team");
    assert!(contract.metadata().state_schema.starts_with("{\"type\":\"object\""));
    assert!(contract.initialize(&[]).is_ok());
    assert_eq!(contract.execute("transfer", &[]).unwrap(), vec![1]);
    assert_eq!(contract.execute("get_balance", &[]).unwrap(), vec![0, 0, 0, 0, 0, 0, 0, 100]);
    match contract.execute("mint", &[]) {
        Err(WASMError::FunctionNotFound(text)) => assert_eq!(text, "Function mint not found"),
        other => panic!("unexpected answer {:?}", other),
    }
    assert!(contract.balances().is_empty());
    assert!(contract.transactions().is_empty());
}

#[test]
fn test_network_config_default() {
    let config = NetworkConfig::default();
    assert_eq!(config.max_peers, 50);
    assert_eq!(Duration::from_millis(config.heartbeat_interval), Duration::from_secs(30));
}

#[test]
fn test_peer_info_creation() {
    let peer_id = "12D3KooWPeer".to_string();
    let peer_info = PeerInfo {
        peer_id: peer_id.clone(),
        address: "127.0.0.1:8080".to_string(),
        last_seen: 0,
        is_connected: true,
        node_type: NodeType::Full,
    };

    assert_eq!(peer_info.peer_id, peer_id);
    assert!(peer_info.is_connected);
}

#[test]
fn a_node_queues_what_it_wants_sent_and_counts_its_peers() {
    let config = NetworkConfig::default();
    assert_eq!(config.listen_addr, "/ip4/0.0.0.0/tcp/0");
    assert_eq!(config.connection_timeout, 10_000);
    let mut node = NodeNetwork::new("me".to_string(), config);
    let t = Transaction::with_identity(
        3,
        0,
        KeyPair::from_secret_key_bytes(&[1; 32]).unwrap().public_key(),
        KeyPair::from_secret_key_bytes(&[2; 32]).unwrap().public_key(),
        1,
        1,
        None,
        None,
    );
    assert!(node.broadcast_transaction_at(&t, 10).is_ok());
    assert!(node.request_validation_at(3, "validator", 11).is_ok());
    assert!(node.broadcast_transaction(&t).is_ok());
    assert!(node.request_validation(4, "other").is_ok());
    let sent = node.take_outbox();
    assert_eq!(sent.len(), 4);
    match &sent[0] {
        NetworkMessage::NewTransaction { transaction, timestamp } => {
            assert_eq!(transaction.id, 3);
            assert_eq!(*timestamp, 10);
        }
        other => panic!("unexpected message {:?}", other),
    }
    match &sent[1] {
        NetworkMessage::ValidationRequest { transaction_id, validator, timestamp } => {
            assert_eq!((*transaction_id, validator.as_str(), *timestamp), (3, "validator", 11));
        }
        other => panic!("unexpected message {:?}", other),
    }
    assert_eq!(message_topic(&sent[0]), "transactions");
    assert_eq!(message_topic(&sent[1]), "validation");
    assert!(node.take_outbox().is_empty());
    match node.heartbeat(20, 5) {
        NetworkMessage::Heartbeat { node_id, timestamp, uptime } => {
            assert_eq!((node_id.as_str(), timestamp, uptime), ("me", 20, 5));
        }
        other => panic!("unexpected message {:?}", other),
    }
    let discovery = node.peer_discovery(21);
    assert_eq!(message_topic(&discovery), "heartbeat");
    assert!(matches!(discovery, NetworkMessage::PeerDiscovery { ref peers, .. } if peers.is_empty()));

    for (id, connected) in [("a", true), ("b", false), ("a", true), ("c", true)] {
        node.add_peer(PeerInfo {
            peer_id: id.to_string(),
            address: "x".to_string(),
            last_seen: 1,
            is_connected: connected,
            node_type: NodeType::Light,
        });
    }
    let stats = node.get_statistics().unwrap();
    assert_eq!(stats.peer_id, "me");
    assert_eq!(stats.total_peers, 3);
    assert_eq!(stats.connected_peers, 2);
    assert_eq!(stats.node_type, NodeType::Full);
    assert_eq!(node.config().max_peers, 50);
}

#[test]
fn errors_render_with_their_prefix() {
    assert_eq!(
        SDUPIError::Consensus("round".to_string()).message(),
        "Consensus error: round"
    );
    assert_eq!(SDUPIError::GasLimitExceeded.message(), "Gas limit exceeded");
    assert_eq!(SDUPIError::WalletNotConnected.message(), "Wallet not connected");
    assert_eq!(SDUPIError::Database("io".to_string()).message(), "Database error: io");
    match SDUPIError::from("bad".to_string()) {
        SDUPIError::TransactionValidation(text) => assert_eq!(text, "bad"),
        other => panic!("unexpected error {:?}", other),
    }
}

#[test]
fn numbers_are_written_in_decimal() {
    assert_eq!(decimal_string(0), "0");
    assert_eq!(decimal_string(7), "7");
    assert_eq!(decimal_string(1020), "1020");
    assert_eq!(decimal_string(u64::MAX), "18446744073709551615");
    assert!(same_text("abc", "abc"));
    assert!(!same_text("abc", "abd"));
}

#[test]
fn the_table_keeps_one_value_for_each_key_in_order() {
    let mut table: Registry<u32> = Registry::new();
    assert_eq!(table.insert(vec![1], 10), None);
    assert_eq!(table.insert(vec![2], 20), None);
    assert_eq!(table.insert(vec![1], 11), Some(10));
    assert_eq!(table.len(), 2);
    assert_eq!(table.get(&[1]), Some(&11));
    assert_eq!(table.get(&[3]), None);
    assert_eq!(table.position(&[2]), Some(1));
    assert_eq!(table.key_at(0), &vec![1]);
    assert_eq!(*table.value_at(1), 20);
    assert_eq!(table.replace_at(1, 21), 20);
    assert!(table.contains_key(&[2]));
    assert_eq!(table.remove(&[1]), Some(11));
    assert_eq!(table.remove(&[1]), None);
    assert_eq!(table.len(), 1);
    assert_eq!(table.position(&[2]), Some(0));
}

#[test]
fn the_standard_network_is_consistent() {
    let deployment = TestnetDeployment::new();
    let config = deployment.testnet_config();
    assert_eq!(config.network_name, "SDUPI Testnet");
    assert_eq!(config.chain_id, 1337);
    assert!(config.genesis_validators.len() >= config.min_validators as usize);
    let ids: Vec<&str> = config.genesis_validators.iter().map(|v| v.id.as_str()).collect();
    assert_eq!(ids, vec!["validator-1", "validator-2", "validator-3"]);
    assert!(config.genesis_validators.iter().all(|v| v.is_genesis && v.stake_amount == 1_000_000));
    assert_eq!(config.rpc_endpoints.len(), 2);
    assert_eq!(config.rpc_endpoints[0].endpoint, "https://rpc.testnet.sdupi.com");
    assert_eq!(config.rpc_endpoints[1].endpoint, "https://ws.testnet.sdupi.com");
    assert_ne!(config.rpc_endpoints[0].endpoint, config.rpc_endpoints[1].endpoint);
    assert_eq!((config.rpc_endpoints[0].port, config.rpc_endpoints[1].port), (8545, 8546));
    assert_eq!(config.consensus_threshold, 67);
    assert!(deployment.errors().is_empty());
    assert_eq!(deployment.get_deployment_status(), (DeploymentPhase::Initializing, 0));
}

#[test]
fn the_payment_contract_describes_its_functions() {
    let contract = P2PPaymentContract::new();
    let fresh = contract.metadata();
    let given = P2PPaymentContract::with_id(fresh.contract_id).metadata();
    assert_eq!(fresh.name, "P2P Payment Contract");
    assert_eq!(fresh.version, "1.0.0");
    assert_eq!(fresh.description, "Simple P2P payment contract for SDUPI blockchain");
    assert_eq!(fresh.state_schema, given.state_schema);
    assert_eq!(fresh.functions.len(), 2);
    let transfer = &fresh.functions[0];
    assert_eq!(transfer.name, "transfer");
    assert_eq!(transfer.visibility, FunctionVisibility::Public);
    assert_eq!(transfer.return_type.as_deref(), Some("bool"));
    assert_eq!(transfer.parameters.len(), 2);
    assert_eq!(transfer.parameters[0].name, "to");
    assert_eq!(transfer.parameters[0].parameter_type, "string");
    assert_eq!(transfer.parameters[0].description.as_deref(), Some("Recipient address"));
    assert_eq!(transfer.parameters[1].name, "amount");
    assert_eq!(transfer.parameters[1].parameter_type, "u64");
    let balance = &fresh.functions[1];
    assert_eq!(balance.name, "get_balance");
    assert_eq!(balance.visibility, FunctionVisibility::View);
    assert_eq!(balance.return_type.as_deref(), Some("u64"));
    assert_eq!(balance.parameters.len(), 1);
    assert_eq!(balance.parameters[0].name, "address");
    assert!(contract.balances().is_empty());
}
