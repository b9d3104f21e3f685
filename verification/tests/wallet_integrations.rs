use sdupi_core::crypto::{sha256, KeyPair};
use sdupi_core::error::SDUPIError;
use sdupi_core::wallet_integrations::{
    MetaMaskIntegration, PhantomIntegration, WalletIntegrationManager, WalletTransaction,
    WalletType,
};

fn payment(from: &str) -> WalletTransaction {
    WalletTransaction {
        from: from.to_string(),
        to: "0xabcdef1234567890".to_string(),
        amount: 1000,
        gas_limit: 21000,
        gas_price: 20,
        nonce: 0,
        data: vec![],
        signature: vec![],
        wallet_type: WalletType::MetaMask,
    }
}

#[test]
fn test_metamask_connection() {
    let mut manager = WalletIntegrationManager::new(1, "https://rpc.sdupi.com".to_string());
    let address = "0x1234567890abcdef".to_string();
    let public_key = vec![1, 2, 3, 4, 5];

    let connection = manager.connect_metamask(address.clone(), public_key).unwrap();
    assert_eq!(connection.address, address);
    assert!(matches!(connection.wallet_type, WalletType::MetaMask));
}

#[test]
fn test_phantom_connection() {
    let mut manager = WalletIntegrationManager::new(1, "https://rpc.sdupi.com".to_string());
    let address = "phantom_address_123".to_string();
    let public_key = vec![1, 2, 3, 4, 5];

    let connection = manager.connect_phantom(address.clone(), public_key).unwrap();
    assert_eq!(connection.address, address);
    assert!(matches!(connection.wallet_type, WalletType::Phantom));
}

#[test]
fn test_transaction_signing() {
    let mut manager = WalletIntegrationManager::new(1, "https://rpc.sdupi.com".to_string());
    let address = "0x1234567890abcdef".to_string();
    let public_key = vec![1, 2, 3, 4, 5];
    let wallet_key = KeyPair::from_secret_key_bytes(&[9; 32]).unwrap();

    // Connect wallet
    manager.connect_metamask(address.clone(), public_key).unwrap();

    // Create transaction
    let transaction = payment(&address);

    // Sign transaction
    let signature = manager.sign_transaction(&address, &transaction, &wallet_key).unwrap();
    assert!(!signature.signature.is_empty());
}

#[test]
fn the_signed_message_names_the_transaction() {
    let manager = WalletIntegrationManager::new(1, "rpc".to_string());
    let message = manager.create_transaction_message(&payment("alice")).unwrap();
    assert_eq!(message, b"alice:0xabcdef1234567890:1000:21000:20:0".to_vec());
}

#[test]
fn a_signature_verifies_under_the_key_of_the_connection() {
    let wallet_key = KeyPair::from_secret_key_bytes(&[9; 32]).unwrap();
    let mut manager = WalletIntegrationManager::new(5, "rpc".to_string());
    let connection = manager.connect_at(
        WalletType::SDUPINative,
        "alice".to_string(),
        wallet_key.public_key().to_bytes().to_vec(),
        77,
    );
    assert_eq!(connection.chain_id, 5);
    assert_eq!(connection.connected_at, 77);
    assert_eq!(connection.last_activity, 77);
    assert_eq!(connection.balance, 0);
    assert_eq!(connection.nonce, 0);
    let transaction = payment("alice");
    let mut signature = manager.sign_transaction("alice", &transaction, &wallet_key).unwrap();
    assert_eq!(signature.wallet_type, WalletType::SDUPINative);
    assert_eq!(signature.message, manager.create_transaction_message(&transaction).unwrap());
    assert_eq!(signature.signature, wallet_key.sign(&signature.message));
    assert_eq!(manager.verify_signature(&signature).unwrap(), true);
    signature.message.push(b'!');
    assert_eq!(manager.verify_signature(&signature).unwrap(), false);
    signature.public_key = vec![1, 2, 3];
    assert!(matches!(manager.verify_signature(&signature), Err(SDUPIError::Crypto(_))));
    assert!(matches!(
        manager.sign_transaction("bob", &transaction, &wallet_key),
        Err(SDUPIError::WalletNotConnected)
    ));
}

#[test]
fn balances_and_connections_are_kept_by_address() {
    let mut manager = WalletIntegrationManager::new(1, "rpc".to_string());
    assert!(matches!(manager.get_balance("alice"), Err(SDUPIError::WalletNotConnected)));
    manager.connect_walletconnect("alice".to_string(), vec![1]).unwrap();
    manager.connect_sdupi_native("bob".to_string(), vec![2]).unwrap();
    assert_eq!(manager.get_balance("alice").unwrap(), 0);
    assert!(manager.update_balance_at("alice", 50, 9).is_ok());
    assert!(manager.update_balance("bob", 60).is_ok());
    assert!(manager.update_balance("carol", 70).is_ok());
    assert_eq!(manager.get_balance("alice").unwrap(), 50);
    assert_eq!(manager.get_balance("bob").unwrap(), 60);
    let wallets = manager.get_connected_wallets();
    assert_eq!(wallets.len(), 2);
    assert_eq!(wallets[0].address, "alice");
    assert_eq!(wallets[0].last_activity, 9);
    assert_eq!(wallets[0].wallet_type, WalletType::WalletConnect);
    assert_eq!(wallets[1].address, "bob");
    // Connecting again replaces the connection.
    manager.connect_at(WalletType::Phantom, "alice".to_string(), vec![3], 10);
    assert_eq!(manager.get_balance("alice").unwrap(), 0);
    assert_eq!(manager.get_connected_wallets().len(), 2);
    assert!(manager.disconnect_wallet("alice").is_ok());
    assert!(manager.disconnect_wallet("alice").is_ok());
    assert!(matches!(manager.get_balance("alice"), Err(SDUPIError::WalletNotConnected)));
    assert_eq!(manager.get_connected_wallets().len(), 1);
    assert!(manager.is_wallet_supported(&WalletType::TrustWallet));
    assert!(manager.is_wallet_supported(&WalletType::CoinbaseWallet));
}

#[test]
fn wallet_settings_are_those_of_the_main_network() {
    let metamask = MetaMaskIntegration::new();
    let config = metamask.chain_config();
    assert_eq!(config.chain_id, "0x1");
    assert_eq!(config.chain_name, "SDUPI Blockchain");
    assert_eq!(config.native_currency.name, "SDUPI Token");
    assert_eq!(config.native_currency.symbol, "SDUPI");
    assert_eq!(config.native_currency.decimals, 18);
    assert_eq!(config.rpc_urls, vec!["https://rpc.sdupi.com"]);
    assert_eq!(config.block_explorer_urls, vec!["https://explorer.sdupi.com"]);
    assert_eq!(metamask.request_accounts().unwrap(), vec!["0x1234567890abcdef"]);

    let phantom = PhantomIntegration::new();
    assert_eq!(phantom.connection_url(), "https://phantom.app");
    assert_eq!(phantom.connect().unwrap(), "phantom_connection_id");
    assert_eq!(phantom.sign_message(b"hi").unwrap(), sha256(b"hi"));
}
