//! Wallet connections: the table of connected wallets, the message that a
//! wallet signs for a transaction, and the settings of two wallet kinds.

use vstd::prelude::*;
use vstd::utf8::encode_utf8;
use crate::ambient::now_millis;
use crate::crypto::{
    ed25519_accepts, ed25519_point_encoding, ed25519_signature_of, sha256, sha256_digest, KeyPair,
    PublicKey,
};
use crate::error::SDUPIError;
use crate::registry::{copy_bytes, Registry};
use crate::text::{decimal_digits, decimal_string};

verus! {

/// Kinds of wallets.
#[derive(Debug, Clone, Copy, PartialEq, Eq, Structural)]
pub enum WalletType {
    MetaMask,
    Phantom,
    WalletConnect,
    SDUPINative,
    TrustWallet,
    CoinbaseWallet,
}

/// A connected wallet.
#[derive(Debug)]
pub struct WalletConnection {
    pub wallet_type: WalletType,
    pub address: String,
    pub public_key: Vec<u8>,
    pub chain_id: u64,
    /// Connection time in seconds since the Unix epoch.
    pub connected_at: u64,
    pub last_activity: u64,
    pub balance: u64,
    pub nonce: u64,
}

/// The mathematical value of a connection.
pub ghost struct WalletConnectionView {
    pub wallet_type: WalletType,
    pub address: Seq<char>,
    pub public_key: Seq<u8>,
    pub chain_id: u64,
    pub connected_at: u64,
    pub last_activity: u64,
    pub balance: u64,
    pub nonce: u64,
}

impl View for WalletConnection {
    type V = WalletConnectionView;

    open spec fn view(&self) -> WalletConnectionView {
        WalletConnectionView {
            wallet_type: self.wallet_type,
            address: self.address@,
            public_key: self.public_key@,
            chain_id: self.chain_id,
            connected_at: self.connected_at,
            last_activity: self.last_activity,
            balance: self.balance,
            nonce: self.nonce,
        }
    }
}

impl Clone for WalletConnection {
    fn clone(&self) -> (copy: WalletConnection)
        ensures
            copy@ == self@,
    {
        WalletConnection {
            wallet_type: self.wallet_type,
            address: self.address.clone(),
            public_key: copy_bytes(self.public_key.as_slice()),
            chain_id: self.chain_id,
            connected_at: self.connected_at,
            last_activity: self.last_activity,
            balance: self.balance,
            nonce: self.nonce,
        }
    }
}

impl WalletConnectionView {
    /// The connection that a wallet gets when it connects at time `now`.
    pub open spec fn fresh(
        wallet_type: WalletType,
        address: Seq<char>,
        public_key: Seq<u8>,
        chain_id: u64,
        now: u64,
    ) -> WalletConnectionView {
        WalletConnectionView {
            wallet_type,
            address,
            public_key,
            chain_id,
            connected_at: now,
            last_activity: now,
            balance: 0,
            nonce: 0,
        }
    }
}

/// A transaction as a wallet sees it.
#[derive(Debug)]
pub struct WalletTransaction {
    pub from: String,
    pub to: String,
    pub amount: u64,
    pub gas_limit: u64,
    pub gas_price: u64,
    pub nonce: u64,
    pub data: Vec<u8>,
    pub signature: Vec<u8>,
    pub wallet_type: WalletType,
}

/// A message with the signature of a wallet.
#[derive(Debug)]
pub struct WalletSignature {
    pub message: Vec<u8>,
    pub signature: Vec<u8>,
    pub public_key: Vec<u8>,
    pub wallet_type: WalletType,
}

/// The text that a wallet signs for a transaction: sender, recipient, amount,
/// gas limit, gas price and nonce, separated by colons.
pub open spec fn transaction_message_text(
    from: Seq<char>,
    to: Seq<char>,
    amount: u64,
    gas_limit: u64,
    gas_price: u64,
    nonce: u64,
) -> Seq<char> {
    from + ":"@ + to + ":"@ + decimal_digits(amount as nat) + ":"@ + decimal_digits(
        gas_limit as nat,
    ) + ":"@ + decimal_digits(gas_price as nat) + ":"@ + decimal_digits(nonce as nat)
}

/// The message of a wallet transaction, as bytes.
pub open spec fn transaction_message(t: WalletTransaction) -> Seq<u8> {
    encode_utf8(
        transaction_message_text(t.from@, t.to@, t.amount, t.gas_limit, t.gas_price, t.nonce),
    )
}

/// The table of connected wallets of one chain.
#[derive(Debug)]
pub struct WalletIntegrationManager {
    connections: Registry<WalletConnection>,
    supported_wallets: Vec<WalletType>,
    chain_id: u64,
    rpc_url: String,
}

impl WalletIntegrationManager {
    /// The connections by the bytes of their addresses.
    pub closed spec fn connections(&self) -> Map<Seq<u8>, WalletConnection> {
        self.connections@
    }

    /// The chain that the wallets connect to.
    pub closed spec fn chain(&self) -> u64 {
        self.chain_id
    }

    /// The wallet kinds that can connect.
    pub closed spec fn supported(&self) -> Seq<WalletType> {
        self.supported_wallets@
    }

    /// The manager's invariant.
    pub closed spec fn wf(&self) -> bool {
        self.connections.wf()
    }

    /// Whether a wallet is connected under an address.
    pub open spec fn connected(&self, address: Seq<char>) -> bool {
        self.connections().contains_key(encode_utf8(address))
    }

    /// The connection of an address.
    pub open spec fn connection(&self, address: Seq<char>) -> WalletConnection {
        self.connections()[encode_utf8(address)]
    }

    /// Creates a manager without connections that supports every wallet kind.
    pub fn new(chain_id: u64, rpc_url: String) -> (manager: WalletIntegrationManager)
        ensures
            manager.wf(),
            manager.chain() == chain_id,
            manager.connections() == Map::<Seq<u8>, WalletConnection>::empty(),
            manager.supported() == seq![
                WalletType::MetaMask,
                WalletType::Phantom,
                WalletType::WalletConnect,
                WalletType::SDUPINative,
                WalletType::TrustWallet,
                WalletType::CoinbaseWallet,
            ],
    {
        let mut supported_wallets: Vec<WalletType> = Vec::new();
        supported_wallets.push(WalletType::MetaMask);
        supported_wallets.push(WalletType::Phantom);
        supported_wallets.push(WalletType::WalletConnect);
        supported_wallets.push(WalletType::SDUPINative);
        supported_wallets.push(WalletType::TrustWallet);
        supported_wallets.push(WalletType::CoinbaseWallet);
        assert(supported_wallets@ =~= seq![
            WalletType::MetaMask,
            WalletType::Phantom,
            WalletType::WalletConnect,
            WalletType::SDUPINative,
            WalletType::TrustWallet,
            WalletType::CoinbaseWallet,
        ]);
        WalletIntegrationManager {
            connections: Registry::new(),
            supported_wallets,
            chain_id,
            rpc_url,
        }
    }

    /// Connects a wallet at time `now`, in seconds. A wallet that was
    /// connected under the address is replaced.
    pub fn connect_at(
        &mut self,
        wallet_type: WalletType,
        address: String,
        public_key: Vec<u8>,
        now: u64,
    ) -> (connection: WalletConnection)
        requires
            old(self).wf(),
        ensures
            final(self).wf(),
            final(self).chain() == old(self).chain(),
            final(self).supported() == old(self).supported(),
            connection@ == WalletConnectionView::fresh(
                wallet_type,
                address@,
                public_key@,
                old(self).chain(),
                now,
            ),
            final(self).connected(address@),
            final(self).connection(address@)@ == connection@,
            forall|other: Seq<u8>|
                other != encode_utf8(address@) ==> (#[trigger] final(self).connections().contains_key(
                    other,
                ) == old(self).connections().contains_key(other)) && (old(
                    self,
                ).connections().contains_key(other) ==> final(self).connections()[other] == old(
                    self,
                ).connections()[other]),
    {
        let key = copy_bytes(address.as_str().as_bytes());
        let connection = WalletConnection {
            wallet_type,
            address,
            public_key,
            chain_id: self.chain_id,
            connected_at: now,
            last_activity: now,
            balance: 0,
            nonce: 0,
        };
        let copy = connection.clone();
        self.connections.insert(key, connection);
        copy
    }

    /// Connects a MetaMask wallet at the current time.
    pub fn connect_metamask(&mut self, address: String, public_key: Vec<u8>) -> (result: Result<
        WalletConnection,
        SDUPIError,
    >)
        requires
            old(self).wf(),
        ensures
            final(self).wf(),
            result matches Ok(c) && c@ == WalletConnectionView::fresh(
                WalletType::MetaMask,
                address@,
                public_key@,
                old(self).chain(),
                c.connected_at,
            ) && final(self).connected(address@) && final(self).connection(address@)@ == c@,
    {
        let now = now_millis() / 1000;
        Ok(self.connect_at(WalletType::MetaMask, address, public_key, now))
    }

    /// Connects a Phantom wallet at the current time.
    pub fn connect_phantom(&mut self, address: String, public_key: Vec<u8>) -> (result: Result<
        WalletConnection,
        SDUPIError,
    >)
        requires
            old(self).wf(),
        ensures
            final(self).wf(),
            result matches Ok(c) && c@ == WalletConnectionView::fresh(
                WalletType::Phantom,
                address@,
                public_key@,
                old(self).chain(),
                c.connected_at,
            ) && final(self).connected(address@) && final(self).connection(address@)@ == c@,
    {
        let now = now_millis() / 1000;
        Ok(self.connect_at(WalletType::Phantom, address, public_key, now))
    }

    /// Connects a wallet through WalletConnect at the current time.
    pub fn connect_walletconnect(&mut self, address: String, public_key: Vec<u8>) -> (result:
        Result<WalletConnection, SDUPIError>)
        requires
            old(self).wf(),
        ensures
            final(self).wf(),
            result matches Ok(c) && c@ == WalletConnectionView::fresh(
                WalletType::WalletConnect,
                address@,
                public_key@,
                old(self).chain(),
                c.connected_at,
            ) && final(self).connected(address@) && final(self).connection(address@)@ == c@,
    {
        let now = now_millis() / 1000;
        Ok(self.connect_at(WalletType::WalletConnect, address, public_key, now))
    }

    /// Connects a native wallet at the current time.
    pub fn connect_sdupi_native(&mut self, address: String, public_key: Vec<u8>) -> (result:
        Result<WalletConnection, SDUPIError>)
        requires
            old(self).wf(),
        ensures
            final(self).wf(),
            result matches Ok(c) && c@ == WalletConnectionView::fresh(
                WalletType::SDUPINative,
                address@,
                public_key@,
                old(self).chain(),
                c.connected_at,
            ) && final(self).connected(address@) && final(self).connection(address@)@ == c@,
    {
        let now = now_millis() / 1000;
        Ok(self.connect_at(WalletType::SDUPINative, address, public_key, now))
    }

    /// Builds the message that a wallet signs for a transaction.
    pub fn create_transaction_message(&self, transaction: &WalletTransaction) -> (result: Result<
        Vec<u8>,
        SDUPIError,
    >)
        ensures
            result matches Ok(message) && message@ == transaction_message(*transaction),
    {
        let mut text = transaction.from.clone();
        text.append(":");
        text.append(transaction.to.as_str());
        text.append(":");
        text.append(decimal_string(transaction.amount).as_str());
        text.append(":");
        text.append(decimal_string(transaction.gas_limit).as_str());
        text.append(":");
        text.append(decimal_string(transaction.gas_price).as_str());
        text.append(":");
        text.append(decimal_string(transaction.nonce).as_str());
        Ok(copy_bytes(text.as_str().as_bytes()))
    }

    /// Signs a transaction for a connected wallet with the wallet's key pair.
    /// The signature carries the public key under which the wallet connected.
    pub fn sign_transaction(
        &self,
        address: &str,
        transaction: &WalletTransaction,
        wallet_key: &KeyPair,
    ) -> (result: Result<WalletSignature, SDUPIError>)
        requires
            self.wf(),
        ensures
            result is Ok <==> self.connected(address@),
            result matches Ok(s) ==> s.message@ == transaction_message(*transaction)
                && s.signature@ == ed25519_signature_of(
                wallet_key.secret_view(),
                transaction_message(*transaction),
            ) && s.public_key@ == self.connection(address@).public_key@ && s.wallet_type
                == self.connection(address@).wallet_type,
            result matches Err(e) ==> e matches SDUPIError::WalletNotConnected,
    {
        match self.connections.get(address.as_bytes()) {
            None => Err(SDUPIError::WalletNotConnected),
            Some(connection) => {
                let message = match self.create_transaction_message(transaction) {
                    Ok(message) => message,
                    Err(e) => {
                        return Err(e);
                    },
                };
                let signature = wallet_key.sign(message.as_slice());
                Ok(
                    WalletSignature {
                        message,
                        signature,
                        public_key: copy_bytes(connection.public_key.as_slice()),
                        wallet_type: connection.wallet_type,
                    },
                )
            },
        }
    }

    /// Verifies the signature of a wallet. A public key that is no key is an
    /// error; otherwise the answer is that of the signature check.
    pub fn verify_signature(&self, signature: &WalletSignature) -> (result: Result<
        bool,
        SDUPIError,
    >)
        ensures
            result is Ok <==> ed25519_point_encoding(signature.public_key@),
            result matches Ok(valid) ==> valid == ed25519_accepts(
                signature.public_key@,
                signature.message@,
                signature.signature@,
            ),
            result matches Err(e) ==> e matches SDUPIError::Crypto(_),
    {
        match PublicKey::from_bytes(signature.public_key.as_slice()) {
            Err(e) => Err(e),
            Ok(key) => Ok(
                key.verify(signature.message.as_slice(), signature.signature.as_slice()).is_ok(),
            ),
        }
    }

    /// The balance of a connected wallet.
    pub fn get_balance(&self, address: &str) -> (result: Result<u64, SDUPIError>)
        requires
            self.wf(),
        ensures
            result is Ok <==> self.connected(address@),
            result matches Ok(balance) ==> balance == self.connection(address@).balance,
            result matches Err(e) ==> e matches SDUPIError::WalletNotConnected,
    {
        match self.connections.get(address.as_bytes()) {
            None => Err(SDUPIError::WalletNotConnected),
            Some(connection) => Ok(connection.balance),
        }
    }

    /// Sets the balance of a wallet at time `now`, in seconds. Nothing
    /// changes for an address that is not connected.
    pub fn update_balance_at(&mut self, address: &str, new_balance: u64, now: u64) -> (result:
        Result<(), SDUPIError>)
        requires
            old(self).wf(),
        ensures
            final(self).wf(),
            result is Ok,
            final(self).chain() == old(self).chain(),
            final(self).connected(address@) == old(self).connected(address@),
            old(self).connected(address@) ==> final(self).connection(address@)@ == (
            WalletConnectionView {
                balance: new_balance,
                last_activity: now,
                ..old(self).connection(address@)@
            }),
            !old(self).connected(address@) ==> final(self).connections() == old(
                self,
            ).connections(),
    {
        match self.connections.position(address.as_bytes()) {
            None => {},
            Some(i) => {
                let mut updated = self.connections.value_at(i).clone();
                updated.balance = new_balance;
                updated.last_activity = now;
                proof {
                    self.connections.lemma_place(i as int);
                }
                self.connections.replace_at(i, updated);
            },
        }
        Ok(())
    }

    /// Sets the balance of a wallet at the current time.
    pub fn update_balance(&mut self, address: &str, new_balance: u64) -> (result: Result<
        (),
        SDUPIError,
    >)
        requires
            old(self).wf(),
        ensures
            final(self).wf(),
            result is Ok,
            final(self).connected(address@) == old(self).connected(address@),
            old(self).connected(address@) ==> final(self).connection(address@).balance
                == new_balance,
    {
        let now = now_millis() / 1000;
        self.update_balance_at(address, new_balance, now)
    }

    /// Disconnects a wallet. Nothing changes for an address that is not
    /// connected.
    pub fn disconnect_wallet(&mut self, address: &str) -> (result: Result<(), SDUPIError>)
        requires
            old(self).wf(),
        ensures
            final(self).wf(),
            result is Ok,
            final(self).connections() == old(self).connections().remove(encode_utf8(address@)),
            !final(self).connected(address@),
    {
        self.connections.remove(address.as_bytes());
        Ok(())
    }

    /// Copies of all connections, in the order in which their addresses
    /// first connected.
    pub fn get_connected_wallets(&self) -> (wallets: Vec<WalletConnection>)
        requires
            self.wf(),
        ensures
            wallets@.len() == self.connection_count(),
            forall|i: int|
                0 <= i < wallets@.len() ==> (#[trigger] wallets@[i])@ == self.connection_at(i)@,
    {
        let mut wallets: Vec<WalletConnection> = Vec::new();
        let mut i: usize = 0;
        while i < self.connections.len()
            invariant
                i <= self.connections.values().len(),
                wallets@.len() == i,
                forall|j: int|
                    0 <= j < i ==> (#[trigger] wallets@[j])@ == self.connections.values()[j]@,
            decreases self.connections.values().len() - i,
        {
            wallets.push(self.connections.value_at(i).clone());
            i += 1;
        }
        wallets
    }

    /// Number of connections.
    pub closed spec fn connection_count(&self) -> nat {
        self.connections.values().len()
    }

    /// The connection at a place in the order of first connection.
    pub closed spec fn connection_at(&self, i: int) -> WalletConnection {
        self.connections.values()[i]
    }

    /// Whether a wallet kind can connect.
    pub fn is_wallet_supported(&self, wallet_type: &WalletType) -> (supported: bool)
        ensures
            supported == self.supported().contains(*wallet_type),
    {
        let mut i: usize = 0;
        while i < self.supported_wallets.len()
            invariant
                i <= self.supported_wallets@.len(),
                forall|j: int| 0 <= j < i ==> self.supported_wallets@[j] != *wallet_type,
            decreases self.supported_wallets@.len() - i,
        {
            if self.supported_wallets[i] == *wallet_type {
                return true;
            }
            i += 1;
        }
        false
    }
}

/// Currency of a chain as a wallet shows it.
#[derive(Debug)]
pub struct NativeCurrency {
    pub name: String,
    pub symbol: String,
    pub decimals: u8,
}

/// What MetaMask needs to know of a chain.
#[derive(Debug)]
pub struct MetaMaskChainConfig {
    pub chain_id: String,
    pub chain_name: String,
    pub native_currency: NativeCurrency,
    pub rpc_urls: Vec<String>,
    pub block_explorer_urls: Vec<String>,
}

/// Settings for MetaMask.
#[derive(Debug)]
pub struct MetaMaskIntegration {
    chain_config: MetaMaskChainConfig,
}

impl MetaMaskIntegration {
    /// The chain settings.
    pub closed spec fn config(&self) -> MetaMaskChainConfig {
        self.chain_config
    }

    /// The settings of the main network.
    pub fn new() -> (integration: MetaMaskIntegration)
        ensures
            integration.config().chain_id@ == "0x1"@,
            integration.config().chain_name@ == "SDUPI Blockchain"@,
            integration.config().native_currency.name@ == "SDUPI Token"@,
            integration.config().native_currency.symbol@ == "SDUPI"@,
            integration.config().native_currency.decimals == 18,
            integration.config().rpc_urls@.len() == 1,
            integration.config().rpc_urls@[0]@ == "https://rpc.sdupi.com"@,
            integration.config().block_explorer_urls@.len() == 1,
            integration.config().block_explorer_urls@[0]@ == "https://explorer.sdupi.com"@,
    {
        let mut rpc_urls: Vec<String> = Vec::new();
        rpc_urls.push(String::from_str("https://rpc.sdupi.com"));
        let mut block_explorer_urls: Vec<String> = Vec::new();
        block_explorer_urls.push(String::from_str("https://explorer.sdupi.com"));
        MetaMaskIntegration {
            chain_config: MetaMaskChainConfig {
                chain_id: String::from_str("0x1"),
                chain_name: String::from_str("SDUPI Blockchain"),
                native_currency: NativeCurrency {
                    name: String::from_str("SDUPI Token"),
                    symbol: String::from_str("SDUPI"),
                    decimals: 18,
                },
                rpc_urls,
                block_explorer_urls,
            },
        }
    }

    /// The chain settings.
    pub fn chain_config(&self) -> (config: &MetaMaskChainConfig)
        ensures
            *config == self.config(),
    {
        &self.chain_config
    }

    /// The accounts that MetaMask hands over on request.
    pub fn request_accounts(&self) -> (result: Result<Vec<String>, SDUPIError>)
        ensures
            result matches Ok(accounts) && accounts@.len() == 1 && accounts@[0]@
                == "0x1234567890abcdef"@,
    {
        let mut accounts: Vec<String> = Vec::new();
        accounts.push(String::from_str("0x1234567890abcdef"));
        Ok(accounts)
    }
}

/// Settings for the Phantom wallet.
#[derive(Debug)]
pub struct PhantomIntegration {
    connection_url: String,
}

impl PhantomIntegration {
    /// The address at which Phantom is reached.
    pub closed spec fn url(&self) -> Seq<char> {
        self.connection_url@
    }

    /// The settings of the public Phantom service.
    pub fn new() -> (integration: PhantomIntegration)
        ensures
            integration.url() == "https://phantom.app"@,
    {
        PhantomIntegration { connection_url: String::from_str("https://phantom.app") }
    }

    /// The address at which Phantom is reached.
    pub fn connection_url(&self) -> (url: &String)
        ensures
            url@ == self.url(),
    {
        &self.connection_url
    }

    /// The identifier of a connection to Phantom.
    pub fn connect(&self) -> (result: Result<String, SDUPIError>)
        ensures
            result matches Ok(id) && id@ == "phantom_connection_id"@,
    {
        Ok(String::from_str("phantom_connection_id"))
    }

    /// The stand-in signature of a message: its SHA-256 digest.
    pub fn sign_message(&self, message: &[u8]) -> (result: Result<Vec<u8>, SDUPIError>)
        ensures
            result matches Ok(signature) && signature@ == sha256_digest(message@),
    {
        Ok(sha256(message))
    }
}

} // verus!
