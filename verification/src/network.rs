//! Messages between nodes and the bookkeeping of peers.
//!
//! Transport is the work of a network stack outside this library. A node
//! here queues the messages it wants sent; whoever runs the transport takes
//! them from the queue.

use vstd::prelude::*;
use vstd::utf8::encode_utf8;
use crate::ambient::now_millis;
use crate::error::SDUPIError;
use crate::registry::{copy_bytes, Registry};
use crate::transaction::Transaction;

verus! {

/// Messages that nodes exchange. Timestamps are seconds since the Unix
/// epoch.
#[derive(Debug)]
pub enum NetworkMessage {
    /// A new transaction is announced.
    NewTransaction { transaction: Transaction, timestamp: u64 },
    /// A validator is asked to validate a transaction.
    ValidationRequest { transaction_id: u128, validator: String, timestamp: u64 },
    /// A validator answers.
    ValidationResponse { transaction_id: u128, validator: String, is_valid: bool, timestamp: u64 },
    /// A node asks for transactions it lacks.
    DAGSyncRequest { from_transaction: Option<u128>, limit: usize, timestamp: u64 },
    /// Transactions sent in answer to a sync request.
    DAGSyncResponse { transactions: Vec<Transaction>, has_more: bool, timestamp: u64 },
    /// A node says that it is alive.
    Heartbeat { node_id: String, timestamp: u64, uptime: u64 },
    /// A node tells which peers it knows.
    PeerDiscovery { node_id: String, peers: Vec<String>, timestamp: u64 },
}

/// Full nodes store the graph; light nodes do not.
#[derive(Debug, Clone, Copy, PartialEq, Eq, Structural)]
pub enum NodeType {
    Full,
    Light,
}

/// What a node knows of a peer.
#[derive(Debug)]
pub struct PeerInfo {
    pub peer_id: String,
    pub address: String,
    /// When the peer was last seen, in milliseconds since the Unix epoch.
    pub last_seen: u64,
    pub is_connected: bool,
    pub node_type: NodeType,
}

/// Settings of a node's networking. Durations are in milliseconds.
#[derive(Debug)]
pub struct NetworkConfig {
    pub listen_addr: String,
    pub bootstrap_peers: Vec<String>,
    pub heartbeat_interval: u64,
    pub connection_timeout: u64,
    pub max_peers: usize,
}

impl Default for NetworkConfig {
    fn default() -> (c: NetworkConfig)
        ensures
            c.listen_addr@ == "/ip4/0.0.0.0/tcp/0"@,
            c.bootstrap_peers@.len() == 0,
            c.heartbeat_interval == 30_000,
            c.connection_timeout == 10_000,
            c.max_peers == 50,
    {
        NetworkConfig {
            listen_addr: String::from_str("/ip4/0.0.0.0/tcp/0"),
            bootstrap_peers: Vec::new(),
            heartbeat_interval: 30_000,
            connection_timeout: 10_000,
            max_peers: 50,
        }
    }
}

/// Totals of a node's peers.
#[derive(Debug)]
pub struct NetworkStats {
    pub peer_id: String,
    pub total_peers: usize,
    pub connected_peers: usize,
    pub node_type: NodeType,
}

/// The topics under which messages are published.
pub open spec fn topic_of(message: NetworkMessage) -> Seq<char> {
    match message {
        NetworkMessage::NewTransaction { .. } => "transactions"@,
        NetworkMessage::ValidationRequest { .. } => "validation"@,
        NetworkMessage::ValidationResponse { .. } => "validation"@,
        NetworkMessage::DAGSyncRequest { .. } => "sync"@,
        NetworkMessage::DAGSyncResponse { .. } => "sync"@,
        NetworkMessage::Heartbeat { .. } => "heartbeat"@,
        NetworkMessage::PeerDiscovery { .. } => "heartbeat"@,
    }
}

/// The topic under which a message is published.
pub fn message_topic(message: &NetworkMessage) -> (topic: &'static str)
    ensures
        topic@ == topic_of(*message),
{
    match message {
        NetworkMessage::NewTransaction { .. } => "transactions",
        NetworkMessage::ValidationRequest { .. } => "validation",
        NetworkMessage::ValidationResponse { .. } => "validation",
        NetworkMessage::DAGSyncRequest { .. } => "sync",
        NetworkMessage::DAGSyncResponse { .. } => "sync",
        NetworkMessage::Heartbeat { .. } => "heartbeat",
        NetworkMessage::PeerDiscovery { .. } => "heartbeat",
    }
}

/// Number of connected peers among a list.
pub open spec fn connected_among(peers: Seq<PeerInfo>) -> int
    decreases peers.len(),
{
    if peers.len() == 0 {
        0
    } else {
        connected_among(peers.drop_last()) + if peers.last().is_connected {
            1int
        } else {
            0int
        }
    }
}

/// A node's view of the network: its peers and the messages it wants sent.
#[derive(Debug)]
pub struct NodeNetwork {
    peer_id: String,
    peers: Registry<PeerInfo>,
    outbox: Vec<NetworkMessage>,
    config: NetworkConfig,
}

impl NodeNetwork {
    /// The node's own identifier.
    pub closed spec fn peer_id(&self) -> Seq<char> {
        self.peer_id@
    }

    /// The known peers in the order in which they became known.
    pub closed spec fn peers(&self) -> Seq<PeerInfo> {
        self.peers.values()
    }

    /// Whether a peer is known.
    pub closed spec fn knows(&self, peer_id: Seq<char>) -> bool {
        self.peers.has(encode_utf8(peer_id))
    }

    /// The known peers by the bytes of their identifiers.
    pub closed spec fn directory(&self) -> Map<Seq<u8>, PeerInfo> {
        self.peers@
    }

    /// The messages that wait to be sent, the oldest first.
    pub closed spec fn outbox(&self) -> Seq<NetworkMessage> {
        self.outbox@
    }

    /// The settings the node was made with.
    pub closed spec fn settings(&self) -> NetworkConfig {
        self.config
    }

    /// The node's invariant.
    pub closed spec fn wf(&self) -> bool {
        self.peers.wf()
    }

    /// Creates a node that knows no peer and has nothing to send.
    pub fn new(peer_id: String, config: NetworkConfig) -> (node: NodeNetwork)
        ensures
            node.wf(),
            node.peer_id() == peer_id@,
            node.settings() == config,
            node.peers().len() == 0,
            node.outbox().len() == 0,
    {
        NodeNetwork { peer_id, peers: Registry::new(), outbox: Vec::new(), config }
    }

    /// The node's settings.
    pub fn config(&self) -> (config: &NetworkConfig)
        ensures
            *config == self.settings(),
    {
        &self.config
    }

    /// Records a peer. What was known of a peer with the same identifier is
    /// replaced.
    pub fn add_peer(&mut self, peer: PeerInfo)
        requires
            old(self).wf(),
        ensures
            final(self).wf(),
            final(self).peer_id() == old(self).peer_id(),
            final(self).settings() == old(self).settings(),
            final(self).outbox() == old(self).outbox(),
            final(self).knows(peer.peer_id@),
            final(self).directory() == old(self).directory().insert(
                encode_utf8(peer.peer_id@),
                peer,
            ),
            old(self).knows(peer.peer_id@) ==> final(self).peers().len() == old(self).peers().len(),
            !old(self).knows(peer.peer_id@) ==> final(self).peers() == old(self).peers().push(
                peer,
            ),
    {
        let key = copy_bytes(peer.peer_id.as_str().as_bytes());
        self.peers.insert(key, peer);
    }

    /// Queues the announcement of a transaction at time `now`, in seconds.
    pub fn broadcast_transaction_at(&mut self, transaction: &Transaction, now: u64) -> (result:
        Result<(), SDUPIError>)
        ensures
            result is Ok,
            final(self).peer_id() == old(self).peer_id(),
            final(self).settings() == old(self).settings(),
            final(self).peers() == old(self).peers(),
            final(self).directory() == old(self).directory(),
            old(self).wf() ==> final(self).wf(),
            final(self).outbox().len() == old(self).outbox().len() + 1,
            final(self).outbox().drop_last() == old(self).outbox(),
            final(self).outbox().last() matches NetworkMessage::NewTransaction {
                transaction: sent,
                timestamp,
            } && sent@ == transaction@ && timestamp == now,
    {
        self.outbox.push(
            NetworkMessage::NewTransaction { transaction: transaction.clone(), timestamp: now },
        );
        assert(self.outbox@.drop_last() =~= old(self).outbox@);
        Ok(())
    }

    /// Queues the announcement of a transaction at the current time.
    pub fn broadcast_transaction(&mut self, transaction: &Transaction) -> (result: Result<
        (),
        SDUPIError,
    >)
        ensures
            result is Ok,
            final(self).peer_id() == old(self).peer_id(),
            final(self).settings() == old(self).settings(),
            final(self).peers() == old(self).peers(),
            final(self).directory() == old(self).directory(),
            old(self).wf() ==> final(self).wf(),
            final(self).outbox().len() == old(self).outbox().len() + 1,
            final(self).outbox().drop_last() == old(self).outbox(),
            final(self).outbox().last() matches NetworkMessage::NewTransaction {
                transaction: sent,
                ..
            } && sent@ == transaction@,
    {
        let now = now_millis() / 1000;
        self.broadcast_transaction_at(transaction, now)
    }

    /// Queues a request to a validator at time `now`, in seconds.
    pub fn request_validation_at(&mut self, transaction_id: u128, validator: &str, now: u64) -> (result:
        Result<(), SDUPIError>)
        ensures
            result is Ok,
            final(self).peer_id() == old(self).peer_id(),
            final(self).settings() == old(self).settings(),
            final(self).peers() == old(self).peers(),
            final(self).directory() == old(self).directory(),
            old(self).wf() ==> final(self).wf(),
            final(self).outbox().len() == old(self).outbox().len() + 1,
            final(self).outbox().drop_last() == old(self).outbox(),
            final(self).outbox().last() matches NetworkMessage::ValidationRequest {
                transaction_id: id,
                validator: name,
                timestamp,
            } && id == transaction_id && name@ == validator@ && timestamp == now,
    {
        self.outbox.push(
            NetworkMessage::ValidationRequest {
                transaction_id,
                validator: String::from_str(validator),
                timestamp: now,
            },
        );
        assert(self.outbox@.drop_last() =~= old(self).outbox@);
        Ok(())
    }

    /// Queues a request to a validator at the current time.
    pub fn request_validation(&mut self, transaction_id: u128, validator: &str) -> (result: Result<
        (),
        SDUPIError,
    >)
        ensures
            result is Ok,
            final(self).peer_id() == old(self).peer_id(),
            final(self).settings() == old(self).settings(),
            final(self).peers() == old(self).peers(),
            final(self).directory() == old(self).directory(),
            old(self).wf() ==> final(self).wf(),
            final(self).outbox().len() == old(self).outbox().len() + 1,
            final(self).outbox().drop_last() == old(self).outbox(),
            final(self).outbox().last() matches NetworkMessage::ValidationRequest {
                transaction_id: id,
                validator: name,
                ..
            } && id == transaction_id && name@ == validator@,
    {
        let now = now_millis() / 1000;
        self.request_validation_at(transaction_id, validator, now)
    }

    /// The heartbeat of this node at time `now` after `uptime` seconds.
    pub fn heartbeat(&self, now: u64, uptime: u64) -> (message: NetworkMessage)
        ensures
            message matches NetworkMessage::Heartbeat { node_id, timestamp, uptime: up }
                && node_id@ == self.peer_id() && timestamp == now && up == uptime,
    {
        NetworkMessage::Heartbeat { node_id: self.peer_id.clone(), timestamp: now, uptime }
    }

    /// The peer-discovery message of this node at time `now`. It names no
    /// peers.
    pub fn peer_discovery(&self, now: u64) -> (message: NetworkMessage)
        ensures
            message matches NetworkMessage::PeerDiscovery { node_id, peers, timestamp }
                && node_id@ == self.peer_id() && peers@.len() == 0 && timestamp == now,
    {
        NetworkMessage::PeerDiscovery {
            node_id: self.peer_id.clone(),
            peers: Vec::new(),
            timestamp: now,
        }
    }

    /// Hands over the messages that wait to be sent and empties the queue.
    pub fn take_outbox(&mut self) -> (messages: Vec<NetworkMessage>)
        ensures
            messages@ == old(self).outbox(),
            final(self).outbox().len() == 0,
            final(self).peer_id() == old(self).peer_id(),
            final(self).settings() == old(self).settings(),
            final(self).peers() == old(self).peers(),
            final(self).directory() == old(self).directory(),
            old(self).wf() ==> final(self).wf(),
    {
        let mut messages: Vec<NetworkMessage> = Vec::new();
        std::mem::swap(&mut self.outbox, &mut messages);
        messages
    }

    /// Totals of the node's peers.
    pub fn get_statistics(&self) -> (result: Result<NetworkStats, SDUPIError>)
        ensures
            result matches Ok(stats) && stats.peer_id@ == self.peer_id() && stats.total_peers
                == self.peers().len() && stats.connected_peers == connected_among(self.peers())
                && stats.node_type == NodeType::Full,
    {
        let mut connected: usize = 0;
        let mut i: usize = 0;
        while i < self.peers.len()
            invariant
                i <= self.peers.values().len(),
                connected == connected_among(self.peers.values().subrange(0, i as int)),
                connected <= i,
            decreases self.peers.values().len() - i,
        {
            let ghost prefix = self.peers.values().subrange(0, i + 1);
            assert(prefix.drop_last() =~= self.peers.values().subrange(0, i as int));
            if self.peers.value_at(i).is_connected {
                connected += 1;
            }
            i += 1;
        }
        assert(self.peers.values().subrange(0, self.peers.values().len() as int)
            =~= self.peers.values());
        Ok(
            NetworkStats {
                peer_id: self.peer_id.clone(),
                total_peers: self.peers.len(),
                connected_peers: connected,
                node_type: NodeType::Full,
            },
        )
    }
}

} // verus!
