//! Deployment of a test network: validators, RPC servers, a block explorer,
//! monitoring and a token faucet, brought up phase by phase.
//!
//! The components are simulated: a step of the deployment records that a
//! component runs. Waiting between the steps is left to the caller.

use vstd::prelude::*;
use vstd::utf8::encode_utf8;
use crate::ambient::{clock_reading, now_millis};
use crate::registry::{copy_bytes, Registry};

verus! {

/// A validator of the network's first hour.
#[derive(Debug)]
pub struct ValidatorConfig {
    pub id: String,
    pub name: String,
    pub public_key: Vec<u8>,
    pub stake_amount: u64,
    pub endpoint: String,
    pub region: String,
    pub is_genesis: bool,
}

impl Clone for ValidatorConfig {
    fn clone(&self) -> (copy: ValidatorConfig)
        ensures
            copy.id@ == self.id@,
            copy.name@ == self.name@,
            copy.public_key@ == self.public_key@,
            copy.stake_amount == self.stake_amount,
            copy.endpoint@ == self.endpoint@,
            copy.region@ == self.region@,
            copy.is_genesis == self.is_genesis,
    {
        ValidatorConfig {
            id: self.id.clone(),
            name: self.name.clone(),
            public_key: copy_bytes(self.public_key.as_slice()),
            stake_amount: self.stake_amount,
            endpoint: self.endpoint.clone(),
            region: self.region.clone(),
            is_genesis: self.is_genesis,
        }
    }
}

/// An RPC endpoint.
#[derive(Debug)]
pub struct RPCConfig {
    pub endpoint: String,
    pub port: u16,
    pub max_connections: u32,
    pub rate_limit: u32,
    pub cors_origins: Vec<String>,
}

/// Addresses of the block explorer.
#[derive(Debug, Clone)]
pub struct BlockExplorerConfig {
    pub url: String,
    pub api_endpoint: String,
    pub websocket_endpoint: String,
    pub indexing_enabled: bool,
    pub search_enabled: bool,
}

/// Addresses of the monitoring.
#[derive(Debug, Clone)]
pub struct MonitoringConfig {
    pub prometheus_endpoint: String,
    pub grafana_dashboard: String,
    pub alerting_enabled: bool,
    pub log_aggregation: String,
}

/// Limits of the token faucet.
#[derive(Debug, Clone)]
pub struct TokenFaucetConfig {
    pub endpoint: String,
    pub daily_limit: u64,
    pub per_request_limit: u64,
    pub enabled: bool,
}

/// What a test network consists of.
#[derive(Debug)]
pub struct TestnetConfig {
    pub network_name: String,
    pub chain_id: u64,
    pub genesis_validators: Vec<ValidatorConfig>,
    pub rpc_endpoints: Vec<RPCConfig>,
    pub block_explorer: BlockExplorerConfig,
    pub monitoring: MonitoringConfig,
    pub token_faucet: TokenFaucetConfig,
    pub deployment_region: String,
    pub min_validators: u32,
    /// Share of the votes that consensus needs, in hundredths.
    pub consensus_threshold: u64,
}

/// State of a validator node.
#[derive(Debug)]
pub enum NodeStatus {
    Starting,
    Running,
    Stopped,
    Error(String),
}

/// Measurements of a node. Rates are in thousandths.
#[derive(Debug, Clone, Copy, PartialEq, Eq, Structural)]
pub struct NodeMetrics {
    pub tps: u64,
    /// Latency in microseconds.
    pub latency: u64,
    pub block_height: u64,
    pub consensus_participation: u64,
    pub memory_usage: u64,
    pub cpu_usage: u64,
}

impl NodeMetrics {
    /// Measurements of a node that has done nothing yet.
    pub fn new() -> (m: NodeMetrics)
        ensures
            m == (NodeMetrics {
                tps: 0,
                latency: 0,
                block_height: 0,
                consensus_participation: 0,
                memory_usage: 0,
                cpu_usage: 0,
            }),
    {
        NodeMetrics {
            tps: 0,
            latency: 0,
            block_height: 0,
            consensus_participation: 0,
            memory_usage: 0,
            cpu_usage: 0,
        }
    }
}

/// A validator node.
#[derive(Debug)]
pub struct ValidatorNode {
    pub config: ValidatorConfig,
    pub status: NodeStatus,
    pub last_block: u64,
    pub uptime: u64,
    pub stake: u64,
    pub performance_metrics: NodeMetrics,
}

/// State of an RPC server.
#[derive(Debug, Clone, Copy, PartialEq, Eq, Structural)]
pub enum ServerStatus {
    Starting,
    Running,
    Stopped,
    Overloaded,
}

/// An RPC server.
#[derive(Debug)]
pub struct RPCServer {
    pub config: RPCConfig,
    pub status: ServerStatus,
    pub active_connections: u32,
    pub total_requests: u64,
    /// Share of failed requests in thousandths.
    pub error_rate: u64,
}

/// State of the block explorer.
#[derive(Debug)]
pub enum ExplorerStatus {
    Starting,
    Running,
    Indexing,
    Error(String),
}

/// The block explorer.
#[derive(Debug)]
pub struct BlockExplorer {
    pub config: BlockExplorerConfig,
    pub status: ExplorerStatus,
    pub indexed_blocks: u64,
    pub indexed_transactions: u64,
    pub search_index_size: u64,
}

impl BlockExplorer {
    /// An explorer that starts with nothing indexed.
    pub fn new(config: BlockExplorerConfig) -> (explorer: BlockExplorer)
        ensures
            explorer.config == config,
            explorer.status is Starting,
            explorer.indexed_blocks == 0,
            explorer.indexed_transactions == 0,
            explorer.search_index_size == 0,
    {
        BlockExplorer {
            config,
            status: ExplorerStatus::Starting,
            indexed_blocks: 0,
            indexed_transactions: 0,
            search_index_size: 0,
        }
    }
}

/// State of the monitoring.
#[derive(Debug)]
pub enum MonitoringStatus {
    Starting,
    Running,
    Alerting,
    Error(String),
}

/// The monitoring.
#[derive(Debug)]
pub struct MonitoringSystem {
    pub config: MonitoringConfig,
    pub status: MonitoringStatus,
    pub metrics_collected: u64,
    pub alerts_triggered: u64,
}

impl MonitoringSystem {
    /// A monitoring that starts with nothing collected.
    pub fn new(config: MonitoringConfig) -> (monitoring: MonitoringSystem)
        ensures
            monitoring.config == config,
            monitoring.status is Starting,
            monitoring.metrics_collected == 0,
            monitoring.alerts_triggered == 0,
    {
        MonitoringSystem {
            config,
            status: MonitoringStatus::Starting,
            metrics_collected: 0,
            alerts_triggered: 0,
        }
    }
}

/// State of the faucet.
#[derive(Debug, Clone, Copy, PartialEq, Eq, Structural)]
pub enum FaucetStatus {
    Starting,
    Running,
    Paused,
    Empty,
}

/// The token faucet.
#[derive(Debug)]
pub struct TokenFaucet {
    pub config: TokenFaucetConfig,
    pub status: FaucetStatus,
    pub total_distributed: u64,
    pub daily_distributed: u64,
    /// Time of the last reset of the daily count, in milliseconds.
    pub last_reset: u64,
}

impl TokenFaucet {
    /// A faucet that starts at time `now` with nothing distributed.
    pub fn new_at(config: TokenFaucetConfig, now: u64) -> (faucet: TokenFaucet)
        ensures
            faucet.config == config,
            faucet.status == FaucetStatus::Starting,
            faucet.total_distributed == 0,
            faucet.daily_distributed == 0,
            faucet.last_reset == now,
    {
        TokenFaucet {
            config,
            status: FaucetStatus::Starting,
            total_distributed: 0,
            daily_distributed: 0,
            last_reset: now,
        }
    }

    /// A faucet that starts now with nothing distributed.
    pub fn new(config: TokenFaucetConfig) -> (faucet: TokenFaucet)
        ensures
            faucet.config == config,
            faucet.status == FaucetStatus::Starting,
            faucet.total_distributed == 0,
            faucet.daily_distributed == 0,
            clock_reading(faucet.last_reset),
    {
        TokenFaucet::new_at(config, now_millis())
    }
}

/// Phases of a deployment.
#[derive(Debug, Clone, Copy, PartialEq, Eq, Structural)]
pub enum DeploymentPhase {
    Initializing,
    DeployingValidators,
    StartingRPC,
    LaunchingExplorer,
    SettingUpMonitoring,
    StartingFaucet,
    Finalizing,
    Complete,
    Failed,
}

/// How far a deployment has come.
#[derive(Debug)]
pub struct DeploymentStatus {
    pub phase: DeploymentPhase,
    /// Progress in hundredths.
    pub progress: u64,
    pub validators_ready: u32,
    pub rpc_servers_ready: u32,
    pub block_explorer_ready: bool,
    pub monitoring_ready: bool,
    pub faucet_ready: bool,
    pub errors: Vec<String>,
}

impl DeploymentStatus {
    /// The status of a deployment that has not begun.
    pub fn new() -> (status: DeploymentStatus)
        ensures
            status.phase == DeploymentPhase::Initializing,
            status.progress == 0,
            status.validators_ready == 0,
            status.rpc_servers_ready == 0,
            !status.block_explorer_ready,
            !status.monitoring_ready,
            !status.faucet_ready,
            status.errors@.len() == 0,
    {
        DeploymentStatus {
            phase: DeploymentPhase::Initializing,
            progress: 0,
            validators_ready: 0,
            rpc_servers_ready: 0,
            block_explorer_ready: false,
            monitoring_ready: false,
            faucet_ready: false,
            errors: Vec::new(),
        }
    }
}

/// Totals of a network.
#[derive(Debug, Clone, Copy, PartialEq, Eq, Structural)]
pub struct NetworkStats {
    pub total_validators: usize,
    pub active_validators: usize,
    pub total_stake: u64,
    pub total_rpc_requests: u64,
    pub network_uptime: u64,
}

/// The progress, in hundredths, with which a phase begins.
pub open spec fn phase_progress(phase: DeploymentPhase) -> u64 {
    match phase {
        DeploymentPhase::Initializing => 0,
        DeploymentPhase::DeployingValidators => 10,
        DeploymentPhase::StartingRPC => 40,
        DeploymentPhase::LaunchingExplorer => 60,
        DeploymentPhase::SettingUpMonitoring => 80,
        DeploymentPhase::StartingFaucet => 90,
        DeploymentPhase::Finalizing => 95,
        DeploymentPhase::Complete => 100,
        DeploymentPhase::Failed => 0,
    }
}

/// Sum of the stakes of nodes, held at the largest 64-bit number when it
/// would pass it.
pub open spec fn capped_stake(nodes: Seq<ValidatorNode>) -> int
    decreases nodes.len(),
{
    if nodes.len() == 0 {
        0
    } else {
        let rest = capped_stake(nodes.drop_last());
        if rest + nodes.last().stake > u64::MAX {
            u64::MAX as int
        } else {
            rest + nodes.last().stake
        }
    }
}

/// Number of running nodes.
pub open spec fn running_nodes(nodes: Seq<ValidatorNode>) -> int
    decreases nodes.len(),
{
    if nodes.len() == 0 {
        0
    } else {
        running_nodes(nodes.drop_last()) + if nodes.last().status is Running {
            1int
        } else {
            0int
        }
    }
}

/// Number of running servers.
pub open spec fn running_servers(servers: Seq<RPCServer>) -> int
    decreases servers.len(),
{
    if servers.len() == 0 {
        0
    } else {
        running_servers(servers.drop_last()) + if servers.last().status == ServerStatus::Running {
            1int
        } else {
            0int
        }
    }
}

/// Sum of the requests of servers, held at the largest 64-bit number.
pub open spec fn capped_requests(servers: Seq<RPCServer>) -> int
    decreases servers.len(),
{
    if servers.len() == 0 {
        0
    } else {
        let rest = capped_requests(servers.drop_last());
        if rest + servers.last().total_requests > u64::MAX {
            u64::MAX as int
        } else {
            rest + servers.last().total_requests
        }
    }
}

/// A deployment of a test network.
#[derive(Debug)]
pub struct TestnetDeployment {
    config: TestnetConfig,
    validators: Registry<ValidatorNode>,
    rpc_servers: Registry<RPCServer>,
    block_explorer: BlockExplorer,
    monitoring: MonitoringSystem,
    token_faucet: TokenFaucet,
    deployment_status: DeploymentStatus,
}

fn genesis_validator(id: &str, name: &str, key_start: u8, endpoint: &str, region: &str) -> (v:
    ValidatorConfig)
    requires
        key_start <= 250,
    ensures
        v.id@ == id@,
        v.name@ == name@,
        v.public_key@ == seq![
            key_start,
            (key_start + 1) as u8,
            (key_start + 2) as u8,
            (key_start + 3) as u8,
            (key_start + 4) as u8,
        ],
        v.stake_amount == 1_000_000,
        v.endpoint@ == endpoint@,
        v.region@ == region@,
        v.is_genesis,
{
    let mut public_key: Vec<u8> = Vec::new();
    public_key.push(key_start);
    public_key.push(key_start + 1);
    public_key.push(key_start + 2);
    public_key.push(key_start + 3);
    public_key.push(key_start + 4);
    assert(public_key@ =~= seq![
        key_start,
        (key_start + 1) as u8,
        (key_start + 2) as u8,
        (key_start + 3) as u8,
        (key_start + 4) as u8,
    ]);
    ValidatorConfig {
        id: String::from_str(id),
        name: String::from_str(name),
        public_key,
        stake_amount: 1_000_000,
        endpoint: String::from_str(endpoint),
        region: String::from_str(region),
        is_genesis: true,
    }
}

fn rpc_endpoint(endpoint: &str, port: u16, max_connections: u32, rate_limit: u32) -> (c: RPCConfig)
    ensures
        c.endpoint@ == endpoint@,
        c.port == port,
        c.max_connections == max_connections,
        c.rate_limit == rate_limit,
        c.cors_origins@.len() == 1,
        c.cors_origins@[0]@ == "*"@,
{
    let mut cors_origins: Vec<String> = Vec::new();
    cors_origins.push(String::from_str("*"));
    RPCConfig { endpoint: String::from_str(endpoint), port, max_connections, rate_limit, cors_origins }
}

fn clone_rpc_config(c: &RPCConfig) -> (copy: RPCConfig)
    ensures
        copy.endpoint@ == c.endpoint@,
        copy.port == c.port,
        copy.max_connections == c.max_connections,
        copy.rate_limit == c.rate_limit,
        copy.cors_origins@.len() == c.cors_origins@.len(),
{
    let mut cors_origins: Vec<String> = Vec::new();
    let mut i: usize = 0;
    while i < c.cors_origins.len()
        invariant
            i <= c.cors_origins@.len(),
            cors_origins@.len() == i,
        decreases c.cors_origins@.len() - i,
    {
        cors_origins.push(c.cors_origins[i].clone());
        i += 1;
    }
    RPCConfig {
        endpoint: c.endpoint.clone(),
        port: c.port,
        max_connections: c.max_connections,
        rate_limit: c.rate_limit,
        cors_origins,
    }
}

impl TestnetDeployment {
    /// The network's configuration.
    pub closed spec fn config(&self) -> TestnetConfig {
        self.config
    }

    /// The deployed validator nodes in the order of their deployment.
    pub closed spec fn validators(&self) -> Seq<ValidatorNode> {
        self.validators.values()
    }

    /// The started servers in the order of their start.
    pub closed spec fn servers(&self) -> Seq<RPCServer> {
        self.rpc_servers.values()
    }

    /// The phase that the deployment is in.
    pub closed spec fn phase(&self) -> DeploymentPhase {
        self.deployment_status.phase
    }

    /// The progress in hundredths.
    pub closed spec fn progress(&self) -> u64 {
        self.deployment_status.progress
    }

    /// Number of errors that the deployment has recorded.
    pub closed spec fn error_count(&self) -> nat {
        self.deployment_status.errors@.len()
    }

    /// Whether the explorer runs.
    pub closed spec fn explorer_running(&self) -> bool {
        self.block_explorer.status is Running
    }

    /// Whether the monitoring runs.
    pub closed spec fn monitoring_running(&self) -> bool {
        self.monitoring.status is Running
    }

    /// Whether the faucet runs.
    pub closed spec fn faucet_running(&self) -> bool {
        self.token_faucet.status == FaucetStatus::Running
    }

    /// The deployment's invariant.
    pub closed spec fn wf(&self) -> bool {
        self.validators.wf() && self.rpc_servers.wf()
    }

    /// Whether every component that the configuration asks for runs.
    pub open spec fn all_running(&self) -> bool {
        &&& running_nodes(self.validators()) >= self.config().min_validators
        &&& running_servers(self.servers()) == self.config().rpc_endpoints@.len()
        &&& self.explorer_running()
        &&& self.monitoring_running()
        &&& self.faucet_running()
    }

    /// The deployment of the standard test network: three genesis validators
    /// with a stake of a million each and identifiers of their own, two RPC
    /// endpoints with addresses of their own, explorer, monitoring and
    /// faucet; nothing is deployed yet and no error is recorded.
    pub fn new() -> (deployment: TestnetDeployment)
        ensures
            deployment.wf(),
            deployment.config().network_name@ == "SDUPI Testnet"@,
            deployment.config().chain_id == 1337,
            deployment.config().deployment_region@ == "global"@,
            deployment.config().genesis_validators@.len() == 3,
            deployment.config().genesis_validators@[0].id@ == "validator-1"@,
            deployment.config().genesis_validators@[1].id@ == "validator-2"@,
            deployment.config().genesis_validators@[2].id@ == "validator-3"@,
            forall|i: int|
                0 <= i < 3 ==> (#[trigger] deployment.config().genesis_validators@[i]).is_genesis
                    && deployment.config().genesis_validators@[i].stake_amount == 1_000_000,
            forall|i: int, j: int|
                0 <= i < j < 3 ==> (#[trigger] deployment.config().genesis_validators@[i]).id@ != (
                #[trigger] deployment.config().genesis_validators@[j]).id@,
            deployment.config().rpc_endpoints@.len() == 2,
            deployment.config().rpc_endpoints@[0].endpoint@ == "https://rpc.testnet.sdupi.com"@,
            deployment.config().rpc_endpoints@[0].port == 8545,
            deployment.config().rpc_endpoints@[1].endpoint@ == "https://ws.testnet.sdupi.com"@,
            deployment.config().rpc_endpoints@[1].port == 8546,
            deployment.config().rpc_endpoints@[0].endpoint@
                != deployment.config().rpc_endpoints@[1].endpoint@,
            deployment.config().min_validators == 3,
            deployment.config().genesis_validators@.len() >= deployment.config().min_validators,
            deployment.config().consensus_threshold == 67,
            deployment.config().token_faucet.daily_limit == 1_000_000,
            deployment.config().token_faucet.per_request_limit == 100,
            deployment.config().token_faucet.enabled,
            deployment.validators().len() == 0,
            deployment.servers().len() == 0,
            deployment.phase() == DeploymentPhase::Initializing,
            deployment.progress() == 0,
            deployment.error_count() == 0,
            !deployment.explorer_running(),
            !deployment.monitoring_running(),
            !deployment.faucet_running(),
    {
        proof {
            reveal_strlit("validator-1");
            reveal_strlit("validator-2");
            reveal_strlit("validator-3");
            reveal_strlit("https://rpc.testnet.sdupi.com");
            reveal_strlit("https://ws.testnet.sdupi.com");
            assert("validator-1"@[10] != "validator-2"@[10]);
            assert("validator-1"@[10] != "validator-3"@[10]);
            assert("validator-2"@[10] != "validator-3"@[10]);
            assert("https://rpc.testnet.sdupi.com"@.len() != "https://ws.testnet.sdupi.com"@.len());
        }
        let mut genesis_validators: Vec<ValidatorConfig> = Vec::new();
        genesis_validators.push(
            genesis_validator(
                "validator-1",
                "Genesis Validator 1",
                1,
                "https://validator1.testnet.sdupi.com",
                "us-east-1",
            ),
        );
        genesis_validators.push(
            genesis_validator(
                "validator-2",
                "Genesis Validator 2",
                6,
                "https://validator2.testnet.sdupi.com",
                "us-west-1",
            ),
        );
        genesis_validators.push(
            genesis_validator(
                "validator-3",
                "Genesis Validator 3",
                11,
                "https://validator3.testnet.sdupi.com",
                "eu-west-1",
            ),
        );
        let mut rpc_endpoints: Vec<RPCConfig> = Vec::new();
        rpc_endpoints.push(rpc_endpoint("https://rpc.testnet.sdupi.com", 8545, 1000, 100));
        rpc_endpoints.push(rpc_endpoint("https://ws.testnet.sdupi.com", 8546, 500, 50));
        let block_explorer = BlockExplorerConfig {
            url: String::from_str("https://explorer.testnet.sdupi.com"),
            api_endpoint: String::from_str("https://api.explorer.testnet.sdupi.com"),
            websocket_endpoint: String::from_str("wss://ws.explorer.testnet.sdupi.com"),
            indexing_enabled: true,
            search_enabled: true,
        };
        let monitoring = MonitoringConfig {
            prometheus_endpoint: String::from_str("https://metrics.testnet.sdupi.com"),
            grafana_dashboard: String::from_str("https://dashboard.testnet.sdupi.com"),
            alerting_enabled: true,
            log_aggregation: String::from_str("https://logs.testnet.sdupi.com"),
        };
        let token_faucet = TokenFaucetConfig {
            endpoint: String::from_str("https://faucet.testnet.sdupi.com"),
            daily_limit: 1_000_000,
            per_request_limit: 100,
            enabled: true,
        };
        let explorer = BlockExplorer::new(block_explorer.clone());
        let monitor = MonitoringSystem::new(monitoring.clone());
        let faucet = TokenFaucet::new(token_faucet.clone());
        let config = TestnetConfig {
            network_name: String::from_str("SDUPI Testnet"),
            chain_id: 1337,
            genesis_validators,
            rpc_endpoints,
            block_explorer,
            monitoring,
            token_faucet,
            deployment_region: String::from_str("global"),
            min_validators: 3,
            consensus_threshold: 67,
        };
        TestnetDeployment {
            config,
            validators: Registry::new(),
            rpc_servers: Registry::new(),
            block_explorer: explorer,
            monitoring: monitor,
            token_faucet: faucet,
            deployment_status: DeploymentStatus::new(),
        }
    }

    /// The network's configuration.
    pub fn testnet_config(&self) -> (config: &TestnetConfig)
        ensures
            *config == self.config(),
    {
        &self.config
    }

    /// The errors that the deployment has recorded.
    pub fn errors(&self) -> (errors: &Vec<String>)
        ensures
            errors@.len() == self.error_count(),
    {
        &self.deployment_status.errors
    }

    /// Records the phase that begins and the progress made.
    pub fn update_deployment_status(&mut self, phase: DeploymentPhase, progress: u64)
        ensures
            final(self).phase() == phase,
            final(self).progress() == progress,
            final(self).config() == old(self).config(),
            final(self).validators() == old(self).validators(),
            final(self).servers() == old(self).servers(),
            final(self).explorer_running() == old(self).explorer_running(),
            final(self).monitoring_running() == old(self).monitoring_running(),
            final(self).faucet_running() == old(self).faucet_running(),
            old(self).wf() ==> final(self).wf(),
    {
        self.deployment_status.phase = phase;
        self.deployment_status.progress = progress;
    }

    /// The phase of the deployment and its progress in hundredths.
    pub fn get_deployment_status(&self) -> (status: (DeploymentPhase, u64))
        ensures
            status.0 == self.phase(),
            status.1 == self.progress(),
    {
        (self.deployment_status.phase, self.deployment_status.progress)
    }

    /// Starts the block explorer: it indexes and then runs.
    pub fn launch_block_explorer(&mut self) -> (result: Result<(), String>)
        ensures
            result is Ok,
            final(self).explorer_running(),
            final(self).config() == old(self).config(),
            final(self).validators() == old(self).validators(),
            final(self).servers() == old(self).servers(),
            final(self).monitoring_running() == old(self).monitoring_running(),
            final(self).faucet_running() == old(self).faucet_running(),
            final(self).phase() == old(self).phase(),
            final(self).progress() == old(self).progress(),
            old(self).wf() ==> final(self).wf(),
    {
        self.block_explorer.status = ExplorerStatus::Indexing;
        self.block_explorer.status = ExplorerStatus::Running;
        Ok(())
    }

    /// Starts the monitoring.
    pub fn setup_monitoring(&mut self) -> (result: Result<(), String>)
        ensures
            result is Ok,
            final(self).monitoring_running(),
            final(self).config() == old(self).config(),
            final(self).validators() == old(self).validators(),
            final(self).servers() == old(self).servers(),
            final(self).explorer_running() == old(self).explorer_running(),
            final(self).faucet_running() == old(self).faucet_running(),
            final(self).phase() == old(self).phase(),
            final(self).progress() == old(self).progress(),
            old(self).wf() ==> final(self).wf(),
    {
        self.monitoring.status = MonitoringStatus::Running;
        Ok(())
    }

    /// Starts the token faucet.
    pub fn start_token_faucet(&mut self) -> (result: Result<(), String>)
        ensures
            result is Ok,
            final(self).faucet_running(),
            final(self).config() == old(self).config(),
            final(self).validators() == old(self).validators(),
            final(self).servers() == old(self).servers(),
            final(self).explorer_running() == old(self).explorer_running(),
            final(self).monitoring_running() == old(self).monitoring_running(),
            final(self).phase() == old(self).phase(),
            final(self).progress() == old(self).progress(),
            old(self).wf() ==> final(self).wf(),
    {
        self.token_faucet.status = FaucetStatus::Running;
        Ok(())
    }

    /// Counts the running validator nodes.
    pub fn count_running_validators(&self) -> (count: usize)
        requires
            self.wf(),
        ensures
            count == running_nodes(self.validators()),
    {
        let mut count: usize = 0;
        let mut i: usize = 0;
        while i < self.validators.len()
            invariant
                i <= self.validators.values().len(),
                count == running_nodes(self.validators.values().subrange(0, i as int)),
                count <= i,
            decreases self.validators.values().len() - i,
        {
            let ghost prefix = self.validators.values().subrange(0, i + 1);
            assert(prefix.drop_last() =~= self.validators.values().subrange(0, i as int));
            if matches!(self.validators.value_at(i).status, NodeStatus::Running) {
                count += 1;
            }
            i += 1;
        }
        assert(self.validators.values().subrange(0, self.validators.values().len() as int)
            =~= self.validators.values());
        count
    }

    /// Counts the running servers.
    pub fn count_running_servers(&self) -> (count: usize)
        requires
            self.wf(),
        ensures
            count == running_servers(self.servers()),
    {
        let mut count: usize = 0;
        let mut i: usize = 0;
        while i < self.rpc_servers.len()
            invariant
                i <= self.rpc_servers.values().len(),
                count == running_servers(self.rpc_servers.values().subrange(0, i as int)),
                count <= i,
            decreases self.rpc_servers.values().len() - i,
        {
            let ghost prefix = self.rpc_servers.values().subrange(0, i + 1);
            assert(prefix.drop_last() =~= self.rpc_servers.values().subrange(0, i as int));
            if self.rpc_servers.value_at(i).status == ServerStatus::Running {
                count += 1;
            }
            i += 1;
        }
        assert(self.rpc_servers.values().subrange(0, self.rpc_servers.values().len() as int)
            =~= self.rpc_servers.values());
        count
    }

    /// Checks that every component runs: as many validators as the
    /// configuration asks for, every RPC endpoint, explorer, monitoring and
    /// faucet.
    pub fn finalize_deployment(&self) -> (result: Result<(), String>)
        requires
            self.wf(),
        ensures
            result is Ok <==> self.all_running(),
            result matches Err(m) ==> m@ == "Some components failed to start properly"@,
    {
        let validators_ready = self.count_running_validators();
        let servers_ready = self.count_running_servers();
        let explorer_ready = matches!(self.block_explorer.status, ExplorerStatus::Running);
        let monitoring_ready = matches!(self.monitoring.status, MonitoringStatus::Running);
        let faucet_ready = self.token_faucet.status == FaucetStatus::Running;
        if validators_ready >= self.config.min_validators as usize && servers_ready
            == self.config.rpc_endpoints.len() && explorer_ready && monitoring_ready
            && faucet_ready {
            Ok(())
        } else {
            Err(String::from_str("Some components failed to start properly"))
        }
    }

    /// Totals of the network: validators and their stake, running
    /// validators, and requests served.
    pub fn get_network_stats(&self) -> (stats: NetworkStats)
        requires
            self.wf(),
        ensures
            stats.total_validators == self.validators().len(),
            stats.active_validators == running_nodes(self.validators()),
            stats.total_stake == capped_stake(self.validators()),
            stats.total_rpc_requests == capped_requests(self.servers()),
            stats.network_uptime == 0,
    {
        let mut total_stake: u64 = 0;
        let mut i: usize = 0;
        while i < self.validators.len()
            invariant
                i <= self.validators.values().len(),
                total_stake == capped_stake(self.validators.values().subrange(0, i as int)),
            decreases self.validators.values().len() - i,
        {
            let ghost prefix = self.validators.values().subrange(0, i + 1);
            assert(prefix.drop_last() =~= self.validators.values().subrange(0, i as int));
            total_stake = total_stake.saturating_add(self.validators.value_at(i).stake);
            i += 1;
        }
        assert(self.validators.values().subrange(0, self.validators.values().len() as int)
            =~= self.validators.values());
        let mut total_rpc_requests: u64 = 0;
        let mut j: usize = 0;
        while j < self.rpc_servers.len()
            invariant
                j <= self.rpc_servers.values().len(),
                total_rpc_requests == capped_requests(
                    self.rpc_servers.values().subrange(0, j as int),
                ),
            decreases self.rpc_servers.values().len() - j,
        {
            let ghost prefix = self.rpc_servers.values().subrange(0, j + 1);
            assert(prefix.drop_last() =~= self.rpc_servers.values().subrange(0, j as int));
            total_rpc_requests = total_rpc_requests.saturating_add(
                self.rpc_servers.value_at(j).total_requests,
            );
            j += 1;
        }
        assert(self.rpc_servers.values().subrange(0, self.rpc_servers.values().len() as int)
            =~= self.rpc_servers.values());
        NetworkStats {
            total_validators: self.validators.len(),
            active_validators: self.count_running_validators(),
            total_stake,
            total_rpc_requests,
            network_uptime: 0,
        }
    }

    /// Whether a validator with this identifier is deployed.
    pub closed spec fn has_validator(&self, id: Seq<char>) -> bool {
        self.validators.has(encode_utf8(id))
    }

    /// Whether a server is started for this endpoint.
    pub closed spec fn has_server(&self, endpoint: Seq<char>) -> bool {
        self.rpc_servers.has(encode_utf8(endpoint))
    }

    /// Deploys a node for every genesis validator and lets all nodes run. A
    /// validator whose identifier is deployed already gets a new node in the
    /// place of the old.
    pub fn deploy_validators(&mut self) -> (result: Result<(), String>)
        requires
            old(self).wf(),
        ensures
            final(self).wf(),
            result is Ok,
            final(self).config() == old(self).config(),
            final(self).servers() == old(self).servers(),
            final(self).explorer_running() == old(self).explorer_running(),
            final(self).monitoring_running() == old(self).monitoring_running(),
            final(self).faucet_running() == old(self).faucet_running(),
            final(self).phase() == old(self).phase(),
            final(self).progress() == old(self).progress(),
            running_nodes(final(self).validators()) == final(self).validators().len(),
            forall|k: int|
                0 <= k < final(self).config().genesis_validators@.len()
                    ==> final(self).has_validator(#[trigger] final(self).config().genesis_validators@[k].id@),
    {
        let mut k: usize = 0;
        while k < self.config.genesis_validators.len()
            invariant
                self.validators.wf(),
                self.rpc_servers.wf(),
                self.config == old(self).config,
                self.rpc_servers == old(self).rpc_servers,
                self.block_explorer == old(self).block_explorer,
                self.monitoring == old(self).monitoring,
                self.token_faucet == old(self).token_faucet,
                self.deployment_status == old(self).deployment_status,
                k <= self.config.genesis_validators@.len(),
                forall|m: int|
                    0 <= m < k ==> self.validators.has(
                        encode_utf8(#[trigger] self.config.genesis_validators@[m].id@),
                    ),
            decreases self.config.genesis_validators@.len() - k,
        {
            let config = self.config.genesis_validators[k].clone();
            let key = copy_bytes(config.id.as_str().as_bytes());
            let stake = config.stake_amount;
            let node = ValidatorNode {
                config,
                status: NodeStatus::Starting,
                last_block: 0,
                uptime: 0,
                stake,
                performance_metrics: NodeMetrics::new(),
            };
            let ghost before = self.validators;
            self.validators.insert(key, node);
            proof {
                assert forall|m: int| 0 <= m < k + 1 implies self.validators.has(
                    encode_utf8(#[trigger] self.config.genesis_validators@[m].id@),
                ) by {
                    let other = encode_utf8(self.config.genesis_validators@[m].id@);
                    if m < k {
                        assert(before.has(other));
                        assert(before@.contains_key(other));
                        assert(self.validators@.contains_key(other));
                    }
                }
            }
            k += 1;
        }
        let mut i: usize = 0;
        while i < self.validators.len()
            invariant
                self.validators.wf(),
                self.rpc_servers.wf(),
                self.config == old(self).config,
                self.rpc_servers == old(self).rpc_servers,
                self.block_explorer == old(self).block_explorer,
                self.monitoring == old(self).monitoring,
                self.token_faucet == old(self).token_faucet,
                self.deployment_status == old(self).deployment_status,
                i <= self.validators.values().len(),
                running_nodes(self.validators.values().subrange(0, i as int)) == i,
                forall|m: int|
                    0 <= m < self.config.genesis_validators@.len() ==> self.validators.has(
                        encode_utf8(#[trigger] self.config.genesis_validators@[m].id@),
                    ),
            decreases self.validators.values().len() - i,
        {
            let old_node = self.validators.value_at(i);
            let node = ValidatorNode {
                config: old_node.config.clone(),
                status: NodeStatus::Running,
                last_block: old_node.last_block,
                uptime: old_node.uptime,
                stake: old_node.stake,
                performance_metrics: old_node.performance_metrics,
            };
            let ghost before = self.validators.values();
            self.validators.replace_at(i, node);
            proof {
                let after = self.validators.values();
                assert(after.subrange(0, i as int) =~= before.subrange(0, i as int));
                assert(after.subrange(0, i + 1).drop_last() =~= after.subrange(0, i as int));
            }
            i += 1;
        }
        assert(self.validators.values().subrange(0, self.validators.values().len() as int)
            =~= self.validators.values());
        Ok(())
    }

    /// Starts a server for every RPC endpoint and lets all servers run.
    pub fn start_rpc_servers(&mut self) -> (result: Result<(), String>)
        requires
            old(self).wf(),
        ensures
            final(self).wf(),
            result is Ok,
            final(self).config() == old(self).config(),
            final(self).validators() == old(self).validators(),
            final(self).explorer_running() == old(self).explorer_running(),
            final(self).monitoring_running() == old(self).monitoring_running(),
            final(self).faucet_running() == old(self).faucet_running(),
            final(self).phase() == old(self).phase(),
            final(self).progress() == old(self).progress(),
            running_servers(final(self).servers()) == final(self).servers().len(),
            forall|k: int|
                0 <= k < final(self).config().rpc_endpoints@.len() ==> final(self).has_server(
                    #[trigger] final(self).config().rpc_endpoints@[k].endpoint@,
                ),
    {
        let mut k: usize = 0;
        while k < self.config.rpc_endpoints.len()
            invariant
                self.validators.wf(),
                self.rpc_servers.wf(),
                self.config == old(self).config,
                self.validators == old(self).validators,
                self.block_explorer == old(self).block_explorer,
                self.monitoring == old(self).monitoring,
                self.token_faucet == old(self).token_faucet,
                self.deployment_status == old(self).deployment_status,
                k <= self.config.rpc_endpoints@.len(),
                forall|m: int|
                    0 <= m < k ==> self.rpc_servers.has(
                        encode_utf8(#[trigger] self.config.rpc_endpoints@[m].endpoint@),
                    ),
            decreases self.config.rpc_endpoints@.len() - k,
        {
            let config = clone_rpc_config(&self.config.rpc_endpoints[k]);
            let key = copy_bytes(config.endpoint.as_str().as_bytes());
            let server = RPCServer {
                config,
                status: ServerStatus::Starting,
                active_connections: 0,
                total_requests: 0,
                error_rate: 0,
            };
            let ghost before = self.rpc_servers;
            self.rpc_servers.insert(key, server);
            proof {
                assert forall|m: int| 0 <= m < k + 1 implies self.rpc_servers.has(
                    encode_utf8(#[trigger] self.config.rpc_endpoints@[m].endpoint@),
                ) by {
                    let other = encode_utf8(self.config.rpc_endpoints@[m].endpoint@);
                    if m < k {
                        assert(before.has(other));
                        assert(before@.contains_key(other));
                        assert(self.rpc_servers@.contains_key(other));
                    }
                }
            }
            k += 1;
        }
        let mut i: usize = 0;
        while i < self.rpc_servers.len()
            invariant
                self.validators.wf(),
                self.rpc_servers.wf(),
                self.config == old(self).config,
                self.validators == old(self).validators,
                self.block_explorer == old(self).block_explorer,
                self.monitoring == old(self).monitoring,
                self.token_faucet == old(self).token_faucet,
                self.deployment_status == old(self).deployment_status,
                i <= self.rpc_servers.values().len(),
                running_servers(self.rpc_servers.values().subrange(0, i as int)) == i,
                forall|m: int|
                    0 <= m < self.config.rpc_endpoints@.len() ==> self.rpc_servers.has(
                        encode_utf8(#[trigger] self.config.rpc_endpoints@[m].endpoint@),
                    ),
            decreases self.rpc_servers.values().len() - i,
        {
            let old_server = self.rpc_servers.value_at(i);
            let server = RPCServer {
                config: clone_rpc_config(&old_server.config),
                status: ServerStatus::Running,
                active_connections: old_server.active_connections,
                total_requests: old_server.total_requests,
                error_rate: old_server.error_rate,
            };
            let ghost before = self.rpc_servers.values();
            self.rpc_servers.replace_at(i, server);
            proof {
                let after = self.rpc_servers.values();
                assert(after.subrange(0, i as int) =~= before.subrange(0, i as int));
                assert(after.subrange(0, i + 1).drop_last() =~= after.subrange(0, i as int));
            }
            i += 1;
        }
        assert(self.rpc_servers.values().subrange(0, self.rpc_servers.values().len() as int)
            =~= self.rpc_servers.values());
        Ok(())
    }

    /// Deploys the network phase by phase: validators, RPC servers, block
    /// explorer, monitoring and faucet, then the check that all of them run.
    /// On success the deployment is complete; when the check fails, it stays
    /// in the finalizing phase.
    pub fn deploy_testnet(&mut self) -> (result: Result<(), String>)
        requires
            old(self).wf(),
        ensures
            final(self).wf(),
            final(self).config() == old(self).config(),
            result is Ok <==> final(self).all_running(),
            result is Ok ==> final(self).phase() == DeploymentPhase::Complete
                && final(self).progress() == 100,
            result is Err ==> final(self).phase() == DeploymentPhase::Finalizing
                && final(self).progress() == 95,
            final(self).explorer_running(),
            final(self).monitoring_running(),
            final(self).faucet_running(),
            running_nodes(final(self).validators()) == final(self).validators().len(),
            running_servers(final(self).servers()) == final(self).servers().len(),
    {
        self.update_deployment_status(DeploymentPhase::Initializing, 0);
        self.update_deployment_status(DeploymentPhase::DeployingValidators, 10);
        match self.deploy_validators() {
            Ok(()) => {},
            Err(e) => {
                return Err(e);
            },
        }
        self.update_deployment_status(DeploymentPhase::StartingRPC, 40);
        match self.start_rpc_servers() {
            Ok(()) => {},
            Err(e) => {
                return Err(e);
            },
        }
        self.update_deployment_status(DeploymentPhase::LaunchingExplorer, 60);
        match self.launch_block_explorer() {
            Ok(()) => {},
            Err(e) => {
                return Err(e);
            },
        }
        self.update_deployment_status(DeploymentPhase::SettingUpMonitoring, 80);
        match self.setup_monitoring() {
            Ok(()) => {},
            Err(e) => {
                return Err(e);
            },
        }
        self.update_deployment_status(DeploymentPhase::StartingFaucet, 90);
        match self.start_token_faucet() {
            Ok(()) => {},
            Err(e) => {
                return Err(e);
            },
        }
        self.update_deployment_status(DeploymentPhase::Finalizing, 95);
        match self.finalize_deployment() {
            Ok(()) => {},
            Err(e) => {
                return Err(e);
            },
        }
        self.update_deployment_status(DeploymentPhase::Complete, 100);
        Ok(())
    }
}

} // verus!
