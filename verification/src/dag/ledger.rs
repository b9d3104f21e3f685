//! The executable ledger.

use vstd::prelude::*;
use std::collections::{HashMap, HashSet, VecDeque};
use vstd::std_specs::iter::IteratorSpec;
use crate::consensus::conflict::{clone_ids, Conflict};
use crate::dag::model::{Admission, GraphView, LedgerView, NodePerformanceMetrics, NodeView};
use crate::dag::priority::{calculate_priority_score, priority_score};
use crate::dag::batch::{cut_pending, dispatch_plan, TransactionBatch};
use crate::dag::progress::without;
use crate::dag::support::{
    extract_transaction_pattern, pattern_of, AIConflictPredictor, AdvancedDAGStatistics,
    DAGPerformanceMetrics, DAGStatistics, MemoryPool, PredictiveCache, ProcessingWorker,
};
use crate::dag::{AdvancedDAGConfig, PriorityWeights};
use crate::error::SDUPIError;
use crate::ambient::{clock_reading, now_millis};
use crate::transaction::{
    opt_bytes_view, structure_error_text, Transaction, TransactionStatus, TransactionView,
};

verus! {

/// A node of the graph: a transaction with what the ledger keeps about it.
#[derive(Debug)]
pub struct AdvancedDAGNode {
    pub transaction: Transaction,
    /// Identifiers of the transactions that name this one as a parent.
    pub children: HashSet<u128>,
    pub weight: u64,
    /// When the transaction was validated, in milliseconds since the epoch.
    pub validated_at: Option<u64>,
    pub performance_metrics: NodePerformanceMetrics,
    pub cached_hash: Option<Vec<u8>>,
    pub priority_score: u128,
}

impl View for AdvancedDAGNode {
    type V = NodeView;

    open spec fn view(&self) -> NodeView {
        NodeView {
            transaction: self.transaction@,
            children: self.children@,
            weight: self.weight,
            validated_at: self.validated_at,
            performance_metrics: self.performance_metrics,
            cached_hash: opt_bytes_view(self.cached_hash),
            priority_score: self.priority_score,
        }
    }
}

impl AdvancedDAGNode {
    /// The node of a transaction that enters the graph with a given score.
    pub fn new(transaction: Transaction, priority_score: u128) -> (node: AdvancedDAGNode)
        ensures
            node@ == NodeView::fresh(transaction@, priority_score),
    {
        AdvancedDAGNode {
            transaction,
            children: HashSet::new(),
            weight: 0,
            validated_at: None,
            performance_metrics: NodePerformanceMetrics::default(),
            cached_hash: None,
            priority_score,
        }
    }
}

/// An entry of the pending queue: a transaction and the score it entered with.
#[derive(Debug, Clone, Copy)]
struct QueueEntry {
    id: u128,
    priority: u128,
}

/// The ledger: a graph of transactions with a priority queue of the pending
/// ones and a cache of the current tips.
#[derive(Debug)]
pub struct AdvancedDAGLedger {
    nodes: Vec<AdvancedDAGNode>,
    /// The place of each stored transaction among the nodes.
    index: HashMap<u128, usize>,
    pending_queue: VecDeque<QueueEntry>,
    tip_cache: Vec<u128>,
    config: AdvancedDAGConfig,
    memory_pool: MemoryPool,
    predictive_cache: PredictiveCache,
    performance_metrics: DAGPerformanceMetrics,
    ai_conflict_predictor: AIConflictPredictor,
}

impl View for AdvancedDAGLedger {
    type V = LedgerView;

    closed spec fn view(&self) -> LedgerView {
        LedgerView {
            graph: GraphView {
                nodes: Seq::new(self.nodes@.len(), |i: int| self.nodes@[i]@),
                pending: Seq::new(self.pending_queue@.len(), |k: int| self.pending_queue@[k].id),
                max_tips: self.config.max_tips as nat,
            },
            tips: self.tip_cache@,
        }
    }
}

/// The members of a set of identifiers, once each, in the order in which the
/// set is walked.
pub fn members(set: &HashSet<u128>) -> (list: Vec<u128>)
    ensures
        list@.no_duplicates(),
        list@.to_set() == set@,
{
    let ghost keys = set.iter().remaining().unref();
    let ghost mut seen: int = 0;
    let mut list: Vec<u128> = Vec::new();
    for id in it: set.iter()
        invariant
            it.seq().unref() == keys,
            seen == it.index(),
            0 <= seen <= keys.len(),
            list@ == keys.subrange(0, seen),
    {
        list.push(*id);
        proof {
            seen = seen + 1;
            assert(list@ =~= keys.subrange(0, seen));
        }
    }
    proof {
        assert(keys.subrange(0, keys.len() as int) =~= keys);
        assert(keys.to_set() == set@);
        let walked = set.iter().remaining();
        assert(walked.no_duplicates());
        assert forall|a: int, b: int|
            0 <= a < keys.len() && 0 <= b < keys.len() && a != b implies keys[a] != keys[b] by {
            assert(walked[a] != walked[b]);
        }
    }
    list
}

impl GraphView {
    /// Whether a graph answers a transaction that asks to enter at `now`
    /// with `result` and becomes `after`: a transaction that is accepted
    /// enters with its priority score; any other leaves the graph as it is,
    /// and is answered with the conflict that it has with the graph, or with
    /// the error that says why it is refused.
    pub open spec fn admits(
        self,
        after: GraphView,
        t: TransactionView,
        weights: PriorityWeights,
        result: Result<Option<Conflict>, SDUPIError>,
        now: u64,
    ) -> bool {
        match self.admission(t) {
            Admission::Accepted => (result matches Ok(None)) && after == self.entered(
                t,
                priority_score(t, weights, now) as u128,
            ),
            Admission::Malformed => (result matches Err(SDUPIError::TransactionValidation(m)) && m@
                == structure_error_text(t)) && after == self,
            Admission::MissingParent => (result matches Ok(Some(c)) && Some(c@) == self.detect(
                t,
                now,
            )) && after == self,
            Admission::DoubleSpend => (result matches Ok(Some(c)) && Some(c@) == self.detect(
                t,
                now,
            )) && after == self,
            Admission::NotPending => (result matches Err(SDUPIError::InvalidDAG(m)) && m@
                == "Only pending transactions can be added"@) && after == self,
            Admission::Duplicate => (result matches Err(SDUPIError::InvalidDAG(m)) && m@
                == "Transaction already exists"@) && after == self,
        }
    }
}

impl AdvancedDAGLedger {
    /// The configuration the ledger was made with.
    pub closed spec fn config(&self) -> AdvancedDAGConfig {
        self.config
    }

    /// Each queue entry carries the score of its transaction.
    pub closed spec fn queue_scored(&self) -> bool {
        forall|k: int|
            0 <= k < self.pending_queue@.len() ==> (#[trigger] self.pending_queue@[k]).priority
                == self@.graph.priority_of(self.pending_queue@[k].id)
    }

    /// The index names the place of every stored transaction, and of
    /// nothing else.
    pub closed spec fn indexed(&self) -> bool {
        &&& forall|i: int|
            0 <= i < self@.graph.nodes.len() ==> self.index@.contains_key(
                #[trigger] self@.graph.id_at(i),
            ) && self.index@[self@.graph.id_at(i)] == i
        &&& forall|id: u128| #[trigger]
            self.index@.contains_key(id) ==> self.index@[id] < self@.graph.nodes.len()
                && self@.graph.id_at(self.index@[id] as int) == id
    }

    /// The pool and the pattern cache are consistent.
    pub closed spec fn support_ok(&self) -> bool {
        self.memory_pool.wf() && self.predictive_cache.wf()
    }

    /// The ledger's measurements.
    pub closed spec fn metrics(&self) -> DAGPerformanceMetrics {
        self.performance_metrics
    }

    /// What the ledger keeps beside the graph: the memory pool and the
    /// pattern cache.
    pub closed spec fn support(&self) -> (MemoryPool, PredictiveCache) {
        (self.memory_pool, self.predictive_cache)
    }

    /// The share of the memory pool that is handed out, in thousandths.
    pub open spec fn pool_share(&self) -> u64 {
        self.support().0.spec_utilization() as u64
    }

    /// The hit rate of the pattern cache in thousandths, if the cache has
    /// been asked at all.
    pub open spec fn cache_rate(&self) -> Option<u64> {
        match self.support().1.spec_hit_rate() {
            Some(rate) => Some(rate as u64),
            None => None,
        }
    }

    /// How often the ledger has seen a pattern of transactions.
    pub open spec fn pattern_count(&self, pattern: Seq<char>) -> nat {
        self.support().1.seen(pattern)
    }

    /// The ledger's invariant.
    pub open spec fn wf(&self) -> bool {
        &&& self@.wf()
        &&& self.indexed()
        &&& self.queue_scored()
        &&& self.support_ok()
        &&& self.config().usable()
        &&& self@.graph.max_tips == self.config().max_tips
    }

    /// Creates an empty ledger.
    pub fn new(config: AdvancedDAGConfig) -> (ledger: AdvancedDAGLedger)
        requires
            config.usable(),
        ensures
            ledger.wf(),
            ledger.config() == config,
            ledger@.graph.nodes.len() == 0,
            ledger@.graph.pending.len() == 0,
            ledger@.graph.max_tips == config.max_tips,
            ledger@.tips.len() == 0,
            ledger.pool_share() == 0,
            ledger.cache_rate() is None,
            forall|pattern: Seq<char>| #[trigger] ledger.pattern_count(pattern) == 0,
            ledger.metrics() == (DAGPerformanceMetrics {
                total_transactions: 0,
                current_tps: 0,
                peak_tps: 0,
                avg_processing_time: 0,
                memory_utilization: 0,
                cache_hit_rate: 0,
                parallel_efficiency: 1000,
            }),
    {
        AdvancedDAGLedger {
            nodes: Vec::new(),
            index: HashMap::new(),
            pending_queue: VecDeque::new(),
            tip_cache: Vec::new(),
            config,
            memory_pool: MemoryPool::new(config.memory_pool_size, 1024),
            predictive_cache: PredictiveCache::new(),
            performance_metrics: DAGPerformanceMetrics::default(),
            ai_conflict_predictor: AIConflictPredictor::new(),
        }
    }

    /// Looks a transaction up by its identifier.
    fn find_index(&self, id: u128) -> (found: Option<usize>)
        requires
            self@.graph.ids_unique(),
            self.indexed(),
        ensures
            found is Some <==> self@.graph.contains(id),
            found matches Some(i) ==> i < self@.graph.nodes.len() && self@.graph.id_at(i as int) == id
                && self@.graph.index_of(id) == i && self.nodes@[i as int]@ == self@.graph.node(id),
    {
        match self.index.get(&id) {
            Some(place) => {
                let i = *place;
                proof {
                    assert(self@.graph.id_at(i as int) == id);
                    self@.graph.lemma_index(i as int);
                }
                Some(i)
            },
            None => {
                proof {
                    if self@.graph.contains(id) {
                        self@.graph.lemma_contains(id);
                        let j = self@.graph.index_of(id);
                        assert(self.index@.contains_key(self@.graph.id_at(j)));
                    }
                }
                None
            },
        }
    }

    /// Whether a transaction with this identifier is stored.
    pub fn contains(&self, id: u128) -> (stored: bool)
        requires
            self.wf(),
        ensures
            stored == self@.graph.contains(id),
    {
        self.find_index(id).is_some()
    }

    /// Number of stored transactions.
    pub fn len(&self) -> (n: usize)
        ensures
            n == self@.graph.nodes.len(),
    {
        self.nodes.len()
    }

    /// A copy of a stored transaction.
    pub fn get_transaction(&self, id: u128) -> (found: Option<Transaction>)
        requires
            self.wf(),
        ensures
            found is Some <==> self@.graph.contains(id),
            found matches Some(t) ==> t@ == self@.graph.node(id).transaction,
    {
        match self.find_index(id) {
            Some(i) => Some(self.nodes[i].transaction.clone()),
            None => None,
        }
    }

    /// The status of a stored transaction.
    pub fn status_of(&self, id: u128) -> (found: Option<TransactionStatus>)
        requires
            self.wf(),
        ensures
            found is Some <==> self@.graph.contains(id),
            found matches Some(s) ==> s == self@.graph.status_of(id),
    {
        match self.find_index(id) {
            Some(i) => Some(self.nodes[i].transaction.status),
            None => None,
        }
    }

    /// The transactions that name a stored transaction as a parent, once
    /// each, in no order that could be named.
    pub fn children_of(&self, id: u128) -> (found: Option<Vec<u128>>)
        requires
            self.wf(),
        ensures
            found is Some <==> self@.graph.contains(id),
            found matches Some(c) ==> c@.no_duplicates() && c@.to_set()
                == self@.graph.node(id).children,
    {
        match self.find_index(id) {
            Some(i) => Some(members(&self.nodes[i].children)),
            None => None,
        }
    }

    /// Whether the node at a position is a tip.
    fn tip_at(&self, i: usize) -> (tip: bool)
        requires
            self@.graph.graph_ok(),
            self.indexed(),
            i < self@.graph.nodes.len(),
        ensures
            tip == self@.graph.tip_at(i as int),
    {
        if self.nodes[i].transaction.status == TransactionStatus::Confirmed {
            return false;
        }
        let set: &HashSet<u128> = &self.nodes[i].children;
        let ghost children = self@.graph.nodes[i as int].children;
        let ghost keys = set.iter().remaining().unref();
        let ghost mut seen: int = 0;
        let mut all = true;
        for child in it: set.iter()
            invariant
                self@.graph.graph_ok(),
                self.indexed(),
                i < self@.graph.nodes.len(),
                children == self@.graph.nodes[i as int].children,
                keys.to_set() == children,
                it.seq().unref() == keys,
                seen == it.index(),
                0 <= seen <= keys.len(),
                all == forall|k: int|
                    0 <= k < seen ==> self@.graph.status_of(#[trigger] keys[k])
                        == TransactionStatus::Confirmed,
        {
            proof {
                assert(keys.contains(keys[seen]));
                assert(children.contains(*child));
                assert(self@.graph.children_ok(i as int));
                assert(self@.graph.lists_child(i as int, *child));
            }
            match self.find_index(*child) {
                Some(j) => {
                    if self.nodes[j].transaction.status != TransactionStatus::Confirmed {
                        all = false;
                    }
                },
                None => {
                    all = false;
                },
            }
            proof {
                seen = seen + 1;
            }
        }
        proof {
            if all {
                assert forall|child: u128| #[trigger] children.contains(child) implies self@.graph.status_of(
                    child,
                ) == TransactionStatus::Confirmed by {
                    assert(keys.contains(child));
                    let k = choose|k: int| 0 <= k < keys.len() && keys[k] == child;
                    assert(self@.graph.status_of(keys[k]) == TransactionStatus::Confirmed);
                }
            } else {
                let k = choose|k: int|
                    0 <= k < seen && self@.graph.status_of(#[trigger] keys[k])
                        != TransactionStatus::Confirmed;
                assert(keys.contains(keys[k]));
                assert(children.contains(keys[k]));
            }
        }
        all
    }

    /// Selects the tips of the graph: the nodes that are not confirmed and
    /// have no unconfirmed child, the highest priority first and the lower
    /// identifier first among equals, as many as the cache may hold.
    fn compute_tips(&self) -> (tips: Vec<u128>)
        requires
            self@.graph.graph_ok(),
            self.indexed(),
        ensures
            self@.graph.is_tip_selection(tips@),
    {
        let mut tips: Vec<u128> = Vec::new();
        let mut scores: Vec<u128> = Vec::new();
        let max: usize = self.config.max_tips;
        let mut i: usize = 0;
        while i < self.nodes.len()
            invariant
                self@.graph.graph_ok(),
                self.indexed(),
                max == self@.graph.max_tips,
                i <= self@.graph.nodes.len(),
                self@.graph.nodes.len() == self.nodes@.len(),
                scores@.len() == tips@.len(),
                forall|k: int|
                    0 <= k < tips@.len() ==> #[trigger] scores@[k] == self@.graph.priority_of(tips@[k]),
                self@.graph.selects_among(tips@, i as int),
            decreases self@.graph.nodes.len() - i,
        {
            if max == 0 || !self.tip_at(i) {
                proof {
                    self@.graph.lemma_select_skip(tips@, i as int);
                }
            } else {
                let id: u128 = self.nodes[i].transaction.id;
                let score: u128 = self.nodes[i].priority_score;
                proof {
                    self@.graph.lemma_index(i as int);
                }
                let mut p: usize = 0;
                while p < tips.len() && (scores[p] > score || (scores[p] == score && tips[p] < id))
                    invariant
                        p <= tips@.len(),
                        scores@.len() == tips@.len(),
                        id == self@.graph.id_at(i as int),
                        score == self@.graph.priority_of(id),
                        forall|k: int|
                            0 <= k < tips@.len() ==> #[trigger] scores@[k] == self@.graph.priority_of(
                                tips@[k],
                            ),
                        forall|k: int| 0 <= k < p ==> self@.graph.ranks_before(#[trigger] tips@[k], id),
                    decreases tips@.len() - p,
                {
                    p += 1;
                }
                proof {
                    if p < tips@.len() {
                        assert(self@.graph.index_of(tips@[p as int]) < i);
                        assert(tips@[p as int] != id);
                    }
                }
                if p < max {
                    proof {
                        self@.graph.lemma_select_place(tips@, i as int, p as int);
                    }
                    let ghost before = tips@;
                    tips.insert(p, id);
                    scores.insert(p, score);
                    if tips.len() > max {
                        tips.pop();
                        scores.pop();
                    }
                    assert(tips@ == self@.graph.placed(before, p as int, id));
                } else {
                    proof {
                        assert(self@.graph.outranked(tips@, id));
                        self@.graph.lemma_select_outranked(tips@, i as int);
                    }
                }
            }
            i += 1;
        }
        tips
    }

    /// Brings the tip cache up to date with the graph.
    fn refresh_tips(&mut self)
        requires
            old(self)@.graph.graph_ok(),
            old(self).indexed(),
        ensures
            final(self)@.graph == old(self)@.graph,
            final(self).indexed(),
            final(self)@.wf(),
            final(self).config() == old(self).config(),
            final(self).metrics() == old(self).metrics(),
            final(self).support() == old(self).support(),
            final(self).support_ok() == old(self).support_ok(),
            old(self).queue_scored() ==> final(self).queue_scored(),
    {
        let tips = self.compute_tips();
        self.tip_cache = tips;
        assert(self@.graph =~= old(self)@.graph);
    }

    /// Whether a parent reference names a transaction that is not stored.
    fn parent_missing(&self, parent: Option<u128>) -> (missing: bool)
        requires
            self@.graph.ids_unique(),
            self.indexed(),
        ensures
            missing == (parent matches Some(p) && !self@.graph.contains(p)),
    {
        match parent {
            Some(p) => self.find_index(p).is_none(),
            None => false,
        }
    }

    /// Checks a transaction against the stored graph without changing
    /// anything: a parent that is not stored is an invalid-parent conflict of
    /// the transaction alone; otherwise an identifier borne by a stored
    /// transaction that is no longer pending is a double spend.
    pub fn detect_conflict(&self, transaction: &Transaction, now: u64) -> (found: Option<Conflict>)
        requires
            self.wf(),
        ensures
            found is Some <==> self@.graph.detect(transaction@, now) is Some,
            found matches Some(c) ==> Some(c@) == self@.graph.detect(transaction@, now),
    {
        if self.parent_missing(transaction.parent1) || self.parent_missing(transaction.parent2) {
            return Some(Conflict::invalid_parent(transaction.id, now));
        }
        match self.find_index(transaction.id) {
            Some(i) => {
                if self.nodes[i].transaction.status != TransactionStatus::Pending {
                    Some(Conflict::double_spend(transaction.id, self.nodes[i].transaction.id, now))
                } else {
                    None
                }
            },
            None => None,
        }
    }

    /// Finds the place in the queue for a new entry with a given score.
    fn queue_slot(&self, score: u128) -> (p: usize)
        requires
            self.queue_scored(),
        ensures
            self@.graph.is_queue_position(score, p as int),
    {
        let mut p: usize = 0;
        while p < self.pending_queue.len() && self.pending_queue[p].priority >= score
            invariant
                self.queue_scored(),
                p <= self.pending_queue@.len(),
                self@.graph.pending.len() == self.pending_queue@.len(),
                forall|k: int|
                    0 <= k < p ==> self@.graph.priority_of(#[trigger] self@.graph.pending[k])
                        >= score,
            decreases self.pending_queue@.len() - p,
        {
            assert(self@.graph.pending[p as int] == self.pending_queue@[p as int].id);
            p += 1;
        }
        proof {
            if p < self.pending_queue@.len() {
                assert(self@.graph.pending[p as int] == self.pending_queue@[p as int].id);
            }
        }
        p
    }

    /// Position of a parent that is known to be stored.
    fn parent_index(&self, parent: Option<u128>) -> (found: Option<usize>)
        requires
            self@.graph.ids_unique(),
            self.indexed(),
            parent matches Some(p) ==> self@.graph.contains(p),
        ensures
            found is Some <==> parent is Some,
            found matches Some(i) ==> i < self@.graph.nodes.len() && Some(
                self@.graph.id_at(i as int),
            ) == parent,
    {
        match parent {
            Some(p) => self.find_index(p),
            None => None,
        }
    }

    /// Takes a transaction into the graph at time `now`: what `admits`
    /// describes.
    ///
    /// A transaction with an invalid structure is refused with a
    /// transaction-validation error. One that names a parent that is not
    /// stored, or whose identifier belongs to a stored transaction that is no
    /// longer pending, is answered with the conflict and does not enter. One
    /// that is not pending itself, or whose identifier is taken by a pending
    /// transaction, is refused as an invalid graph. In all these cases the
    /// ledger stays as it is.
    ///
    /// Otherwise the transaction gets its priority score and a fresh node,
    /// its stored parents list it as their child, it takes its place in the
    /// pending queue behind every entry with a score at least as high, and
    /// the tip cache is brought up to date.
    pub fn add_transaction_advanced(&mut self, transaction: Transaction, now: u64) -> (result:
        Result<Option<Conflict>, SDUPIError>)
        requires
            old(self).wf(),
        ensures
            final(self).wf(),
            final(self).config() == old(self).config(),
            final(self).metrics() == old(self).metrics(),
            final(self).support() == old(self).support(),
            old(self)@.graph.advances_to(final(self)@.graph),
            old(self)@.graph.admission(transaction@) != Admission::Accepted ==> final(self)@ == old(self)@,
            old(self)@.graph.admits(
                final(self)@.graph,
                transaction@,
                old(self).config().priority_weights,
                result,
                now,
            ),
    {
        proof {
            self@.graph.lemma_advances(self@.graph, self@.graph);
        }
        match transaction.validate_structure() {
            Err(e) => {
                return Err(e);
            },
            Ok(()) => {},
        }
        match self.detect_conflict(&transaction, now) {
            Some(conflict) => {
                return Ok(Some(conflict));
            },
            None => {},
        }
        if transaction.status != TransactionStatus::Pending {
            return Err(
                SDUPIError::InvalidDAG(String::from_str("Only pending transactions can be added")),
            );
        }
        if self.find_index(transaction.id).is_some() {
            return Err(SDUPIError::InvalidDAG(String::from_str("Transaction already exists")));
        }
        let ghost graph = self@.graph;
        let ghost t = transaction@;
        let score: u128 = calculate_priority_score(
            &transaction,
            &self.config.priority_weights,
            now,
        );
        let id: u128 = transaction.id;
        let first = self.parent_index(transaction.parent1);
        let second = self.parent_index(transaction.parent2);
        let slot: usize = self.queue_slot(score);
        proof {
            graph.lemma_queue_position_exists(score);
            graph.lemma_queue_position_unique(score, slot as int, graph.queue_position(score));
            graph.lemma_entered_ok(t, score);
            graph.lemma_entered_lookup(t, score);
            graph.lemma_entered_advances(t, score);
        }
        match first {
            Some(i) => {
                self.nodes[i].children.insert(id);
            },
            None => {},
        }
        match second {
            Some(j) => {
                if first != Some(j) {
                    self.nodes[j].children.insert(id);
                }
            },
            None => {},
        }
        let place = self.nodes.len();
        self.nodes.push(AdvancedDAGNode::new(transaction, score));
        self.index.insert(id, place);
        self.pending_queue.insert(slot, QueueEntry { id, priority: score });
        proof {
            let after = self@.graph;
            let want = graph.entered(t, score);
            assert(after.nodes.len() == want.nodes.len());
            let fi: int = match first {
                Some(f) => f as int,
                None => -1,
            };
            let si: int = match second {
                Some(f) => f as int,
                None => -1,
            };
            assert forall|i: int| 0 <= i < want.nodes.len() implies after.nodes[i]
                == want.nodes[i] by {
                if i < graph.nodes.len() {
                    if i == fi || i == si {
                        assert(t.has_parent(graph.id_at(i)));
                    } else if t.has_parent(graph.id_at(i)) {
                        graph.lemma_index(i);
                        if t.parent1 == Some(graph.id_at(i)) {
                            graph.lemma_index(fi);
                        } else {
                            graph.lemma_index(si);
                        }
                    }
                }
            }
            assert(after.nodes =~= want.nodes);
            assert(after.pending =~= want.pending);
            assert(after == want);
            assert forall|k: int| 0 <= k < self.pending_queue@.len() implies (
            #[trigger] self.pending_queue@[k]).priority == after.priority_of(
                self.pending_queue@[k].id,
            ) by {
                if k < slot {
                    assert(self.pending_queue@[k] == old(self).pending_queue@[k]);
                    assert(graph.pending[k] == old(self).pending_queue@[k].id);
                    assert(graph.pending_entry_ok(k));
                    graph.lemma_entered_keeps(t, score, graph.pending[k]);
                } else if k > slot {
                    assert(self.pending_queue@[k] == old(self).pending_queue@[k - 1]);
                    assert(graph.pending[k - 1] == old(self).pending_queue@[k - 1].id);
                    assert(graph.pending_entry_ok(k - 1));
                    graph.lemma_entered_keeps(t, score, graph.pending[k - 1]);
                }
            }
            assert forall|i: int| 0 <= i < after.nodes.len() implies self.index@.contains_key(
                #[trigger] after.id_at(i),
            ) && self.index@[after.id_at(i)] == i by {
                if i < graph.nodes.len() {
                    assert(after.id_at(i) == graph.id_at(i));
                    assert(old(self).index@.contains_key(graph.id_at(i)));
                    assert(graph.id_at(i) != id);
                }
            }
            assert forall|x: u128| #[trigger] self.index@.contains_key(x) implies self.index@[x]
                < after.nodes.len() && after.id_at(self.index@[x] as int) == x by {
                if x != id {
                    assert(old(self).index@.contains_key(x));
                    assert(after.id_at(old(self).index@[x] as int) == graph.id_at(
                        old(self).index@[x] as int,
                    ));
                }
            }
        }
        self.refresh_tips();
        Ok(None)
    }

    /// Takes a transaction into the graph at the current time. When the
    /// transaction has entered, its pattern is counted and the time the
    /// operation took is measured.
    pub fn add_transaction(&mut self, transaction: Transaction) -> (result: Result<
        Option<Conflict>,
        SDUPIError,
    >)
        requires
            old(self).wf(),
        ensures
            final(self).wf(),
            final(self).config() == old(self).config(),
            old(self)@.graph.advances_to(final(self)@.graph),
            old(self)@.graph.admission(transaction@) != Admission::Accepted
                ==> final(self)@ == old(self)@ && final(self).metrics() == old(self).metrics(),
            old(self)@.graph.admission(transaction@) == Admission::Accepted ==> (result matches Ok(
                None,
            )) && final(self)@.graph.nodes.len() == old(self)@.graph.nodes.len() + 1
                && final(self)@.graph.contains(transaction.id),
            result is Err <==> (old(self)@.graph.admission(transaction@) == Admission::Malformed
                || old(self)@.graph.admission(transaction@) == Admission::NotPending
                    || old(self)@.graph.admission(transaction@) == Admission::Duplicate),
            result matches Ok(Some(_)) <==> (old(self)@.graph.admission(transaction@)
                == Admission::MissingParent || old(self)@.graph.admission(transaction@)
                == Admission::DoubleSpend),
            exists|now: u64|
                clock_reading(now) && #[trigger] old(self)@.graph.admits(
                    final(self)@.graph,
                    transaction@,
                    old(self).config().priority_weights,
                    result,
                    now,
                ),
            final(self).pool_share() == old(self).pool_share(),
            final(self).cache_rate() == old(self).cache_rate(),
            old(self)@.graph.admission(transaction@) != Admission::Accepted ==> forall|
                pattern: Seq<char>,
            | #[trigger] final(self).pattern_count(pattern) == old(self).pattern_count(pattern),
            old(self)@.graph.admission(transaction@) == Admission::Accepted ==> ({
                let pattern = pattern_of(transaction@);
                final(self).pattern_count(pattern) == (if old(self).pattern_count(pattern)
                    == usize::MAX {
                    usize::MAX as nat
                } else {
                    old(self).pattern_count(pattern) + 1
                })
            }) && exists|elapsed: u64|
                final(self).metrics() == #[trigger] old(self).metrics().updated(
                    elapsed,
                    old(self).pool_share(),
                    old(self).cache_rate(),
                ),
    {
        let ghost id = transaction.id;
        let ghost t = transaction@;
        let now = now_millis();
        let pattern = extract_transaction_pattern(&transaction);
        let result = self.add_transaction_advanced(transaction, now);
        proof {
            if old(self)@.graph.admission(t) == Admission::Accepted {
                let score = priority_score(t, old(self).config().priority_weights, now) as u128;
                old(self)@.graph.lemma_entered_lookup(t, score);
            }
        }
        match &result {
            Ok(None) => {
                self.predictive_cache.record(pattern, now);
                let ended = now_millis();
                let elapsed = if ended >= now {
                    ended - now
                } else {
                    0
                };
                self.update_performance_metrics(elapsed);
                assert(self.cache_rate() == old(self).cache_rate());
                assert(self.metrics() == old(self).metrics().updated(
                    elapsed,
                    old(self).pool_share(),
                    old(self).cache_rate(),
                ));
            },
            _ => {},
        }
        result
    }

    /// Records an operation that took `processing_time` milliseconds in the
    /// measurements, with the utilization of the memory pool and the hit
    /// rate of the pattern cache.
    pub fn update_performance_metrics(&mut self, processing_time: u64)
        requires
            old(self).wf(),
        ensures
            final(self).wf(),
            final(self)@ == old(self)@,
            final(self).config() == old(self).config(),
            final(self).metrics() == old(self).metrics().updated(
                processing_time,
                old(self).pool_share(),
                old(self).cache_rate(),
            ),
            final(self).support() == old(self).support(),
    {
        let utilization = self.memory_pool.utilization();
        let hit_rate = self.predictive_cache.hit_rate();
        self.performance_metrics.update(processing_time, utilization, hit_rate);
    }

    /// The ledger's measurements.
    pub fn get_performance_metrics(&self) -> (result: Result<DAGPerformanceMetrics, SDUPIError>)
        ensures
            result == Ok::<DAGPerformanceMetrics, SDUPIError>(self.metrics()),
    {
        Ok(self.performance_metrics)
    }

    /// Counts of the ledger: all transactions, the pending, the validated
    /// and the confirmed ones, and the cached tips.
    pub fn get_statistics(&self) -> (result: Result<DAGStatistics, SDUPIError>)
        ensures
            result == Ok::<DAGStatistics, SDUPIError>(
                DAGStatistics {
                    total_transactions: self@.graph.nodes.len() as usize,
                    pending_transactions: self@.graph.pending.len() as usize,
                    validated_transactions: self@.graph.total_with(
                        TransactionStatus::Validated,
                    ) as usize,
                    confirmed_transactions: self@.graph.total_with(
                        TransactionStatus::Confirmed,
                    ) as usize,
                    tips_count: self@.tips.len() as usize,
                },
            ),
    {
        Ok(
            DAGStatistics {
                total_transactions: self.nodes.len(),
                pending_transactions: self.pending_queue.len(),
                validated_transactions: self.count_with_status(TransactionStatus::Validated),
                confirmed_transactions: self.count_with_status(TransactionStatus::Confirmed),
                tips_count: self.tip_cache.len(),
            },
        )
    }

    /// Counts and measurements of the ledger.
    pub fn get_advanced_statistics(&self) -> (result: Result<AdvancedDAGStatistics, SDUPIError>)
        ensures
            result == Ok::<AdvancedDAGStatistics, SDUPIError>(
                AdvancedDAGStatistics {
                    total_transactions: self@.graph.nodes.len() as usize,
                    pending_transactions: self@.graph.pending.len() as usize,
                    validated_transactions: self@.graph.total_with(
                        TransactionStatus::Validated,
                    ) as usize,
                    confirmed_transactions: self@.graph.total_with(
                        TransactionStatus::Confirmed,
                    ) as usize,
                    tips_count: self@.tips.len() as usize,
                    current_tps: self.metrics().current_tps,
                    peak_tps: self.metrics().peak_tps,
                    avg_processing_time: self.metrics().avg_processing_time,
                    memory_utilization: self.metrics().memory_utilization,
                    cache_hit_rate: self.metrics().cache_hit_rate,
                    parallel_efficiency: self.metrics().parallel_efficiency,
                },
            ),
    {
        Ok(
            AdvancedDAGStatistics {
                total_transactions: self.nodes.len(),
                pending_transactions: self.pending_queue.len(),
                validated_transactions: self.count_with_status(TransactionStatus::Validated),
                confirmed_transactions: self.count_with_status(TransactionStatus::Confirmed),
                tips_count: self.tip_cache.len(),
                current_tps: self.performance_metrics.current_tps,
                peak_tps: self.performance_metrics.peak_tps,
                avg_processing_time: self.performance_metrics.avg_processing_time,
                memory_utilization: self.performance_metrics.memory_utilization,
                cache_hit_rate: self.performance_metrics.cache_hit_rate,
                parallel_efficiency: self.performance_metrics.parallel_efficiency,
            },
        )
    }

    /// Cuts the pending queue into batches of the configured size, stamped
    /// with `now`.
    pub fn create_batches(&self, now: u64) -> (batches: Vec<TransactionBatch>)
        requires
            self.wf(),
        ensures
            self@.graph.cut_into(batches@, self.config().batch_size as nat, now),
    {
        cut_pending(self, self.config.batch_size, now)
    }

    /// Processes the pending queue at time `now`: the queue is cut into
    /// batches, the batches are dealt to the workers in turn, and each
    /// worker processes its batches. The answer counts the transactions
    /// processed: all that are pending. The graph stays as it is.
    pub fn process_transactions_parallel_at(&mut self, now: u64) -> (result: Result<
        usize,
        SDUPIError,
    >)
        requires
            old(self).wf(),
        ensures
            final(self).wf(),
            final(self)@ == old(self)@,
            final(self).config() == old(self).config(),
            final(self).metrics() == old(self).metrics(),
            final(self).support() == old(self).support(),
            result == Ok::<usize, SDUPIError>(old(self)@.graph.pending.len() as usize),
    {
        let batches = self.create_batches(now);
        let plan = dispatch_plan(batches.len(), self.config.parallel_workers);
        let ghost graph = self@.graph;
        let ghost size = self.config.batch_size as nat;
        let ghost n = graph.pending.len();
        let mut total: usize = 0;
        let mut k: usize = 0;
        let pending_count = self.pending_queue.len();
        proof {
            assert(0 * size == 0) by (nonlinear_arith);
            assert(n == pending_count);
        }
        while k < batches.len()
            invariant
                k <= batches@.len(),
                plan@.len() == batches@.len(),
                graph.cut_into(batches@, size, now),
                size > 0,
                n == graph.pending.len(),
                n <= usize::MAX,
                graph.pending_transactions().len() == n,
                total == (if k * size < n {
                    k * size
                } else {
                    n as int
                }),
            decreases batches@.len() - k,
        {
            let worker = ProcessingWorker { worker_id: plan[k] };
            let result = worker.process_batch(&batches[k], 0);
            proof {
                let piece = batches@[k as int]@.transactions;
                assert(piece.len() == batches@[k as int].transactions@.len());
                crate::dag::batch::lemma_batch_piece(n, size, k as int);
                assert((k + 1) * size == k * size + size) by (nonlinear_arith);
            }
            total = total + result.processed_transactions.len();
            k += 1;
        }
        proof {
            crate::dag::batch::lemma_batches_cover(n, size);
        }
        Ok(total)
    }

    /// Processes the pending queue at the current time and measures the time
    /// it took.
    pub fn process_transactions_parallel(&mut self) -> (result: Result<usize, SDUPIError>)
        requires
            old(self).wf(),
        ensures
            final(self).wf(),
            final(self)@ == old(self)@,
            final(self).config() == old(self).config(),
            result == Ok::<usize, SDUPIError>(old(self)@.graph.pending.len() as usize),
            exists|elapsed: u64|
                final(self).metrics() == #[trigger] old(self).metrics().updated(
                    elapsed,
                    old(self).pool_share(),
                    old(self).cache_rate(),
                ),
            final(self).support() == old(self).support(),
    {
        let started = now_millis();
        let result = self.process_transactions_parallel_at(started);
        let ended = now_millis();
        let elapsed = if ended >= started {
            ended - started
        } else {
            0
        };
        self.update_performance_metrics(elapsed);
        assert(self.metrics() == old(self).metrics().updated(
            elapsed,
            old(self).pool_share(),
            old(self).cache_rate(),
        ));
        result
    }

    /// Position of a transaction in the pending queue.
    fn queue_find(&self, id: u128) -> (found: Option<usize>)
        requires
            self@.graph.pending.no_duplicates(),
        ensures
            found is Some <==> self@.graph.pending.contains(id),
            found matches Some(k) ==> k < self.pending_queue@.len() && self@.graph.pending.index_of(
                id,
            ) == k,
    {
        let mut k: usize = 0;
        while k < self.pending_queue.len()
            invariant
                k <= self.pending_queue@.len(),
                self@.graph.pending.len() == self.pending_queue@.len(),
                self@.graph.pending.no_duplicates(),
                forall|m: int| 0 <= m < k ==> self@.graph.pending[m] != id,
            decreases self.pending_queue@.len() - k,
        {
            if self.pending_queue[k].id == id {
                proof {
                    let q = self@.graph.pending;
                    assert(q[k as int] == id);
                    let r = q.index_of(id);
                    assert(0 <= r < q.len() && q[r] == id);
                }
                return Some(k);
            }
            k += 1;
        }
        None
    }

    /// Gives the node at `i` a status and a validation time, takes it out of
    /// the pending queue and brings the tip cache up to date.
    fn move_node(&mut self, i: usize, status: TransactionStatus, validated_at: Option<u64>)
        requires
            old(self).wf(),
            i < old(self)@.graph.nodes.len(),
            status != TransactionStatus::Pending,
            old(self)@.graph.nodes[i as int].transaction.status.reaches(status),
        ensures
            final(self).wf(),
            final(self).config() == old(self).config(),
            final(self).metrics() == old(self).metrics(),
            final(self).support() == old(self).support(),
            final(self)@.graph == old(self)@.graph.moved(i as int, status, validated_at),
            old(self)@.graph.advances_to(final(self)@.graph),
    {
        let ghost graph = self@.graph;
        let id: u128 = self.nodes[i].transaction.id;
        let slot = self.queue_find(id);
        proof {
            graph.lemma_moved_ok(i as int, status, validated_at);
        }
        self.nodes[i].transaction.status = status;
        self.nodes[i].validated_at = validated_at;
        match slot {
            Some(k) => {
                let _ = self.pending_queue.remove(k);
            },
            None => {},
        }
        proof {
            let after = self@.graph;
            let want = graph.moved(i as int, status, validated_at);
            assert(after.nodes =~= want.nodes);
            assert(after.pending =~= want.pending);
            assert(after == want);
            assert forall|k: int| 0 <= k < self.pending_queue@.len() implies (
            #[trigger] self.pending_queue@[k]).priority == after.priority_of(
                self.pending_queue@[k].id,
            ) by {
                let o = match slot {
                    Some(r) => if k < r {
                        k
                    } else {
                        k + 1
                    },
                    None => k,
                };
                assert(self.pending_queue@[k] == old(self).pending_queue@[o]);
                assert(graph.pending[o] == old(self).pending_queue@[o].id);
                assert(graph.pending_entry_ok(o));
                graph.lemma_moved_lookup(i as int, status, validated_at, graph.pending[o]);
            }
            assert forall|j: int| 0 <= j < after.nodes.len() implies #[trigger] after.id_at(j)
                == graph.id_at(j) by {}
            assert forall|j: int| 0 <= j < after.nodes.len() implies self.index@.contains_key(
                #[trigger] after.id_at(j),
            ) && self.index@[after.id_at(j)] == j by {
                assert(self.index@.contains_key(graph.id_at(j)));
            }
            assert forall|x: u128| #[trigger] self.index@.contains_key(x) implies self.index@[x]
                < after.nodes.len() && after.id_at(self.index@[x] as int) == x by {
                assert(after.id_at(self.index@[x] as int) == graph.id_at(self.index@[x] as int));
            }
        }
        self.refresh_tips();
    }

    /// Marks a pending transaction as validated at time `now`. Validating a
    /// validated transaction changes nothing; a confirmed or rejected one
    /// cannot be validated.
    pub fn validate_transaction(&mut self, id: u128, now: u64) -> (result: Result<(), SDUPIError>)
        requires
            old(self).wf(),
        ensures
            final(self).wf(),
            final(self).config() == old(self).config(),
            final(self).metrics() == old(self).metrics(),
            final(self).support() == old(self).support(),
            old(self)@.graph.advances_to(final(self)@.graph),
            result is Ok <==> old(self)@.graph.can_validate(id),
            result is Ok ==> final(self)@.graph == old(self)@.graph.after_validate(id, now),
            result is Err ==> final(self)@ == old(self)@,
            result matches Err(e) ==> if old(self)@.graph.contains(id) {
                e matches SDUPIError::InvalidDAG(_)
            } else {
                e matches SDUPIError::NodeNotFound(_)
            },
    {
        proof {
            self@.graph.lemma_advances(self@.graph, self@.graph);
        }
        match self.find_index(id) {
            None => Err(SDUPIError::NodeNotFound(String::from_str("Transaction is not stored"))),
            Some(i) => {
                match self.nodes[i].transaction.status {
                    TransactionStatus::Pending => {
                        self.move_node(i, TransactionStatus::Validated, Some(now));
                        Ok(())
                    },
                    TransactionStatus::Validated => Ok(()),
                    _ => Err(
                        SDUPIError::InvalidDAG(
                            String::from_str("Transaction can no longer be validated"),
                        ),
                    ),
                }
            },
        }
    }

    /// Marks a transaction as confirmed. A pending transaction passes through
    /// validation at time `now` on the way. Confirming a confirmed
    /// transaction changes nothing; a rejected one cannot be confirmed.
    pub fn confirm_transaction(&mut self, id: u128, now: u64) -> (result: Result<(), SDUPIError>)
        requires
            old(self).wf(),
        ensures
            final(self).wf(),
            final(self).config() == old(self).config(),
            final(self).metrics() == old(self).metrics(),
            final(self).support() == old(self).support(),
            old(self)@.graph.advances_to(final(self)@.graph),
            result is Ok <==> old(self)@.graph.can_confirm(id),
            result is Ok ==> final(self)@.graph == old(self)@.graph.after_confirm(id, now),
            result is Err ==> final(self)@ == old(self)@,
            result matches Err(e) ==> if old(self)@.graph.contains(id) {
                e matches SDUPIError::InvalidDAG(_)
            } else {
                e matches SDUPIError::NodeNotFound(_)
            },
    {
        proof {
            self@.graph.lemma_advances(self@.graph, self@.graph);
        }
        match self.find_index(id) {
            None => Err(SDUPIError::NodeNotFound(String::from_str("Transaction is not stored"))),
            Some(i) => {
                match self.nodes[i].transaction.status {
                    TransactionStatus::Pending => {
                        self.move_node(i, TransactionStatus::Confirmed, Some(now));
                        Ok(())
                    },
                    TransactionStatus::Validated => {
                        let stamp = self.nodes[i].validated_at;
                        self.move_node(i, TransactionStatus::Confirmed, stamp);
                        Ok(())
                    },
                    TransactionStatus::Confirmed => Ok(()),
                    TransactionStatus::Rejected => Err(
                        SDUPIError::InvalidDAG(
                            String::from_str("Rejected transactions cannot be confirmed"),
                        ),
                    ),
                }
            },
        }
    }

    /// Marks a pending transaction as rejected. Rejecting a rejected
    /// transaction changes nothing; a validated or confirmed one cannot be
    /// rejected.
    pub fn reject_transaction(&mut self, id: u128) -> (result: Result<(), SDUPIError>)
        requires
            old(self).wf(),
        ensures
            final(self).wf(),
            final(self).config() == old(self).config(),
            final(self).metrics() == old(self).metrics(),
            final(self).support() == old(self).support(),
            old(self)@.graph.advances_to(final(self)@.graph),
            result is Ok <==> old(self)@.graph.can_reject(id),
            result is Ok ==> final(self)@.graph == old(self)@.graph.after_reject(id),
            result is Err ==> final(self)@ == old(self)@,
            result matches Err(e) ==> if old(self)@.graph.contains(id) {
                e matches SDUPIError::InvalidDAG(_)
            } else {
                e matches SDUPIError::NodeNotFound(_)
            },
    {
        proof {
            self@.graph.lemma_advances(self@.graph, self@.graph);
        }
        match self.find_index(id) {
            None => Err(SDUPIError::NodeNotFound(String::from_str("Transaction is not stored"))),
            Some(i) => {
                match self.nodes[i].transaction.status {
                    TransactionStatus::Pending => {
                        let stamp = self.nodes[i].validated_at;
                        self.move_node(i, TransactionStatus::Rejected, stamp);
                        Ok(())
                    },
                    TransactionStatus::Rejected => Ok(()),
                    _ => Err(
                        SDUPIError::InvalidDAG(
                            String::from_str("Transaction can no longer be rejected"),
                        ),
                    ),
                }
            },
        }
    }

    /// The cached tips: transactions that are not confirmed and have no
    /// unconfirmed child, the highest priority first, at most as many as the
    /// configuration allows.
    pub fn get_tips(&self) -> (tips: Vec<u128>)
        requires
            self.wf(),
        ensures
            tips@ == self@.tips,
            self@.graph.is_tip_selection(tips@),
            tips@.len() <= self.config().max_tips,
            forall|k: int|
                0 <= k < tips@.len() ==> self@.graph.contains(#[trigger] tips@[k])
                    && self@.graph.status_of(tips@[k]) != TransactionStatus::Confirmed,
    {
        proof {
            assert forall|k: int| 0 <= k < self@.tips.len() implies self@.graph.contains(
                #[trigger] self@.tips[k],
            ) && self@.graph.status_of(self@.tips[k]) != TransactionStatus::Confirmed by {
                assert(self@.graph.is_tip(self@.tips[k]));
            }
        }
        clone_ids(&self.tip_cache)
    }

    /// The pending transactions in the order of the queue.
    pub fn pending_transactions(&self) -> (ids: Vec<u128>)
        ensures
            ids@ == self@.graph.pending,
    {
        let mut ids: Vec<u128> = Vec::new();
        let mut k: usize = 0;
        while k < self.pending_queue.len()
            invariant
                k <= self.pending_queue@.len(),
                self@.graph.pending.len() == self.pending_queue@.len(),
                ids@ == self@.graph.pending.subrange(0, k as int),
            decreases self.pending_queue@.len() - k,
        {
            ids.push(self.pending_queue[k].id);
            assert(ids@ =~= self@.graph.pending.subrange(0, k + 1));
            k += 1;
        }
        assert(self@.graph.pending.subrange(0, self@.graph.pending.len() as int)
            =~= self@.graph.pending);
        ids
    }

    /// Counts the stored transactions that have a given status.
    pub fn count_with_status(&self, status: TransactionStatus) -> (count: usize)
        ensures
            count == self@.graph.total_with(status),
    {
        let mut count: usize = 0;
        let mut i: usize = 0;
        while i < self.nodes.len()
            invariant
                i <= self.nodes@.len(),
                self@.graph.nodes.len() == self.nodes@.len(),
                count == self@.graph.count_status(status, i as int),
                count <= i,
            decreases self.nodes@.len() - i,
        {
            if self.nodes[i].transaction.status == status {
                count += 1;
            }
            i += 1;
        }
        count
    }
}

} // verus!
