//! The mathematical model of the ledger and the invariant it keeps.

use vstd::prelude::*;
use crate::consensus::conflict::{Conflict, ConflictView};
use crate::transaction::{TransactionStatus, TransactionView};

verus! {

/// Measurements kept with a node. Rates are in thousandths.
#[derive(Debug, Clone, Copy, PartialEq, Eq, Structural)]
pub struct NodePerformanceMetrics {
    /// Processing time in milliseconds.
    pub processing_time: u64,
    pub memory_usage: usize,
    pub cache_hit_rate: u64,
    pub validation_efficiency: u64,
}

impl Default for NodePerformanceMetrics {
    fn default() -> (m: NodePerformanceMetrics)
        ensures
            m == (NodePerformanceMetrics {
                processing_time: 0,
                memory_usage: 0,
                cache_hit_rate: 0,
                validation_efficiency: 1000,
            }),
    {
        NodePerformanceMetrics {
            processing_time: 0,
            memory_usage: 0,
            cache_hit_rate: 0,
            validation_efficiency: 1000,
        }
    }
}

/// The mathematical value of a node.
pub ghost struct NodeView {
    pub transaction: TransactionView,
    /// Identifiers of the transactions that name this one as a parent.
    pub children: Set<u128>,
    pub weight: u64,
    pub validated_at: Option<u64>,
    pub performance_metrics: NodePerformanceMetrics,
    pub cached_hash: Option<Seq<u8>>,
    pub priority_score: u128,
}

impl NodeView {
    /// The node of a transaction that has just entered the graph.
    pub open spec fn fresh(transaction: TransactionView, priority_score: u128) -> NodeView {
        NodeView {
            transaction,
            children: Set::<u128>::empty(),
            weight: 0,
            validated_at: None,
            performance_metrics: NodePerformanceMetrics {
                processing_time: 0,
                memory_usage: 0,
                cache_hit_rate: 0,
                validation_efficiency: 1000,
            },
            cached_hash: None,
            priority_score,
        }
    }

    /// The same node with one more child.
    pub open spec fn with_child(self, child: u128) -> NodeView {
        NodeView { children: self.children.insert(child), ..self }
    }

    /// The same node with another status.
    pub open spec fn with_status(self, status: TransactionStatus) -> NodeView {
        NodeView { transaction: self.transaction.with_status(status), ..self }
    }
}

/// The answers of the ledger to a transaction that asks to enter.
pub ghost enum Admission {
    /// The structure is invalid.
    Malformed,
    /// A parent reference does not resolve.
    MissingParent,
    /// The identifier belongs to a stored transaction that is not pending.
    DoubleSpend,
    /// The transaction itself is not pending.
    NotPending,
    /// The identifier belongs to a stored, still pending transaction.
    Duplicate,
    /// The transaction enters the graph.
    Accepted,
}

/// The graph of a ledger: its nodes in the order in which they entered and
/// the pending queue, with the capacity of the tip cache.
pub ghost struct GraphView {
    pub nodes: Seq<NodeView>,
    pub pending: Seq<u128>,
    pub max_tips: nat,
}

/// The mathematical value of a ledger: its graph and the cached tips.
pub ghost struct LedgerView {
    pub graph: GraphView,
    pub tips: Seq<u128>,
}

impl LedgerView {
    /// The ledger's invariant: a consistent graph and queue, and a tip cache
    /// that holds the current selection of tips.
    pub open spec fn wf(self) -> bool {
        self.graph.graph_ok() && self.graph.is_tip_selection(self.tips)
    }
}

impl GraphView {
    /// Identifier of the node at a position.
    pub open spec fn id_at(self, i: int) -> u128 {
        self.nodes[i].transaction.id
    }

    /// Whether a transaction with this identifier is stored.
    pub open spec fn contains(self, id: u128) -> bool {
        exists|i: int| 0 <= i < self.nodes.len() && #[trigger] self.id_at(i) == id
    }

    /// Position of a stored transaction.
    pub open spec fn index_of(self, id: u128) -> int {
        choose|i: int| 0 <= i < self.nodes.len() && #[trigger] self.id_at(i) == id
    }

    /// The node of a stored transaction.
    pub open spec fn node(self, id: u128) -> NodeView {
        self.nodes[self.index_of(id)]
    }

    /// Status of a stored transaction.
    pub open spec fn status_of(self, id: u128) -> TransactionStatus {
        self.node(id).transaction.status
    }

    /// Priority score of a stored transaction.
    pub open spec fn priority_of(self, id: u128) -> u128 {
        self.node(id).priority_score
    }

    /// No two nodes share an identifier.
    pub open spec fn ids_unique(self) -> bool {
        forall|i: int, j: int|
            0 <= i < j < self.nodes.len() ==> #[trigger] self.id_at(i) != #[trigger] self.id_at(j)
    }

    /// A parent reference of the node at `i` points to a node stored before it.
    pub open spec fn parent_resolves(self, i: int, parent: Option<u128>) -> bool {
        parent matches Some(p) ==> exists|j: int| 0 <= j < i && #[trigger] self.id_at(j) == p
    }

    /// Both parent references of the node at `i` point to earlier nodes: the
    /// graph has no dangling edge and no cycle.
    pub open spec fn parents_ok(self, i: int) -> bool {
        &&& self.parent_resolves(i, self.nodes[i].transaction.parent1)
        &&& self.parent_resolves(i, self.nodes[i].transaction.parent2)
    }

    /// Whether the node at `j` names the node at `i` as a parent.
    pub open spec fn is_child(self, i: int, j: int) -> bool {
        self.nodes[j].transaction.has_parent(self.id_at(i))
    }

    /// The child set of the node at `i` holds exactly the stored
    /// transactions that name it as a parent.
    pub open spec fn children_ok(self, i: int) -> bool {
        &&& forall|child: u128| #[trigger]
            self.nodes[i].children.contains(child) ==> self.lists_child(i, child)
        &&& forall|j: int|
            0 <= j < self.nodes.len() && #[trigger] self.is_child(i, j)
                ==> self.nodes[i].children.contains(self.id_at(j))
    }

    /// `child` is stored and names the node at `i` as a parent.
    pub open spec fn lists_child(self, i: int, child: u128) -> bool {
        exists|j: int|
            0 <= j < self.nodes.len() && #[trigger] self.id_at(j) == child && self.is_child(i, j)
    }

    /// An entry of the pending queue is a stored, pending transaction.
    pub open spec fn pending_entry_ok(self, k: int) -> bool {
        self.contains(self.pending[k]) && self.status_of(self.pending[k])
            == TransactionStatus::Pending
    }

    /// The queue holds, once each, exactly the pending transactions, the
    /// higher priority first.
    pub open spec fn pending_ok(self) -> bool {
        &&& self.pending.no_duplicates()
        &&& forall|k: int| 0 <= k < self.pending.len() ==> #[trigger] self.pending_entry_ok(k)
        &&& forall|i: int|
            0 <= i < self.nodes.len() && self.nodes[i].transaction.status
                == TransactionStatus::Pending ==> self.pending.contains(#[trigger] self.id_at(i))
        &&& forall|a: int, b: int|
            0 <= a < b < self.pending.len() ==> self.priority_of(#[trigger] self.pending[a])
                >= self.priority_of(#[trigger] self.pending[b])
    }

    /// The graph and the queue are consistent.
    pub open spec fn graph_ok(self) -> bool {
        &&& self.ids_unique()
        &&& forall|i: int| 0 <= i < self.nodes.len() ==> #[trigger] self.parents_ok(i)
        &&& forall|i: int| 0 <= i < self.nodes.len() ==> #[trigger] self.children_ok(i)
        &&& self.pending_ok()
    }

    /// Whether every child of a set is confirmed.
    pub open spec fn all_confirmed(self, children: Set<u128>) -> bool {
        forall|child: u128| #[trigger]
            children.contains(child) ==> self.status_of(child) == TransactionStatus::Confirmed
    }

    /// A tip is a node that is not confirmed and has no unconfirmed child.
    pub open spec fn tip_at(self, i: int) -> bool {
        &&& self.nodes[i].transaction.status != TransactionStatus::Confirmed
        &&& self.all_confirmed(self.nodes[i].children)
    }

    /// Whether `id` is stored and a tip.
    pub open spec fn is_tip(self, id: u128) -> bool {
        self.contains(id) && self.tip_at(self.index_of(id))
    }

    /// The order of tips: higher priority first, the lower identifier first
    /// among equal priorities.
    pub open spec fn ranks_before(self, a: u128, b: u128) -> bool {
        self.priority_of(a) > self.priority_of(b) || (self.priority_of(a) == self.priority_of(b)
            && a < b)
    }

    /// `tips` is the selection of tips among the first `n` nodes: the best
    /// ranked tips, in rank order, as many as `max_tips` allows.
    pub open spec fn selects_among(self, tips: Seq<u128>, n: int) -> bool {
        &&& tips.len() <= self.max_tips
        &&& forall|k: int|
            0 <= k < tips.len() ==> self.is_tip(#[trigger] tips[k]) && self.index_of(tips[k]) < n
        &&& forall|a: int, b: int|
            0 <= a < b < tips.len() ==> self.ranks_before(#[trigger] tips[a], #[trigger] tips[b])
        &&& forall|i: int|
            0 <= i < n && #[trigger] self.tip_at(i) && !tips.contains(self.id_at(i)) ==> tips.len()
                == self.max_tips && self.outranked(tips, self.id_at(i))
    }

    /// Every selected tip ranks before `id`.
    pub open spec fn outranked(self, tips: Seq<u128>, id: u128) -> bool {
        forall|k: int| 0 <= k < tips.len() ==> self.ranks_before(#[trigger] tips[k], id)
    }

    /// `tips` is the selection of tips of the whole graph.
    pub open spec fn is_tip_selection(self, tips: Seq<u128>) -> bool {
        self.selects_among(tips, self.nodes.len() as int)
    }

    /// Whether the transaction names a parent that is not stored.
    pub open spec fn missing_parent(self, t: TransactionView) -> bool {
        ||| (t.parent1 matches Some(p) && !self.contains(p))
        ||| (t.parent2 matches Some(p) && !self.contains(p))
    }

    /// Whether the identifier of the transaction is taken by a stored
    /// transaction that is no longer pending.
    pub open spec fn collides(self, t: TransactionView) -> bool {
        self.contains(t.id) && self.status_of(t.id) != TransactionStatus::Pending
    }

    /// The conflict, if any, that a transaction has with the stored graph: a
    /// reference to a parent that is not stored, or else an identifier that a
    /// stored, no longer pending transaction bears.
    pub open spec fn detect(self, t: TransactionView, now: u64) -> Option<ConflictView> {
        if self.missing_parent(t) {
            Some(Conflict::spec_invalid_parent(t.id, now))
        } else if self.collides(t) {
            Some(Conflict::spec_double_spend(t.id, t.id, now))
        } else {
            None
        }
    }

    /// How the ledger answers a transaction that asks to enter.
    pub open spec fn admission(self, t: TransactionView) -> Admission {
        if !t.structure_ok() {
            Admission::Malformed
        } else if self.missing_parent(t) {
            Admission::MissingParent
        } else if self.collides(t) {
            Admission::DoubleSpend
        } else if t.status != TransactionStatus::Pending {
            Admission::NotPending
        } else if self.contains(t.id) {
            Admission::Duplicate
        } else {
            Admission::Accepted
        }
    }

    /// `p` is the place in the queue for a new entry with this score: behind
    /// every entry whose score is at least as high, before the first that is
    /// lower.
    pub open spec fn is_queue_position(self, score: u128, p: int) -> bool {
        &&& 0 <= p <= self.pending.len()
        &&& forall|k: int| 0 <= k < p ==> self.priority_of(#[trigger] self.pending[k]) >= score
        &&& p < self.pending.len() ==> self.priority_of(self.pending[p]) < score
    }

    /// The place in the queue for a new entry with this score.
    pub open spec fn queue_position(self, score: u128) -> int {
        choose|p: int| self.is_queue_position(score, p)
    }

    /// The nodes after a transaction has entered: each stored parent lists it
    /// as a child, and its own fresh node stands last.
    pub open spec fn nodes_with(self, t: TransactionView, score: u128) -> Seq<NodeView> {
        Seq::new(
            self.nodes.len() + 1,
            |i: int|
                if i == self.nodes.len() {
                    NodeView::fresh(t, score)
                } else if t.has_parent(self.id_at(i)) {
                    self.nodes[i].with_child(t.id)
                } else {
                    self.nodes[i]
                },
        )
    }

    /// Graph and queue after a transaction has entered with a given score.
    pub open spec fn entered(self, t: TransactionView, score: u128) -> GraphView {
        GraphView {
            nodes: self.nodes_with(t, score),
            pending: self.pending.insert(self.queue_position(score), t.id),
            ..self
        }
    }

    /// A node is found at the position where its identifier stands.
    pub proof fn lemma_index(self, i: int)
        requires
            self.ids_unique(),
            0 <= i < self.nodes.len(),
        ensures
            self.contains(self.id_at(i)),
            self.index_of(self.id_at(i)) == i,
            self.node(self.id_at(i)) == self.nodes[i],
    {
        let id = self.id_at(i);
        let j = self.index_of(id);
        assert(0 <= j < self.nodes.len() && self.id_at(j) == id);
        if j < i {
            assert(self.id_at(j) != self.id_at(i));
        } else if i < j {
            assert(self.id_at(i) != self.id_at(j));
        }
    }

    /// A stored identifier stands at its position.
    pub proof fn lemma_contains(self, id: u128)
        requires
            self.contains(id),
        ensures
            0 <= self.index_of(id) < self.nodes.len(),
            self.id_at(self.index_of(id)) == id,
    {
    }
}

} // verus!
