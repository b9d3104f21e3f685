//! Batches: the pending queue cut into bounded pieces that workers process.

use vstd::prelude::*;
use crate::ambient::fresh_id;
use crate::dag::ledger::AdvancedDAGLedger;
use crate::dag::model::GraphView;
use crate::transaction::{Transaction, TransactionView};

verus! {

/// A bounded piece of the pending queue, in the order of the queue.
#[derive(Debug)]
pub struct TransactionBatch {
    pub batch_id: u128,
    pub transactions: Vec<Transaction>,
    /// Creation time in milliseconds since the Unix epoch.
    pub timestamp: u64,
    /// Number of transactions in the batch.
    pub size: usize,
    /// Mean fee of the transactions in the batch.
    pub priority_score: u64,
}

/// The views of a list of transactions.
pub open spec fn transaction_views(transactions: Seq<Transaction>) -> Seq<TransactionView> {
    Seq::new(transactions.len(), |i: int| transactions[i]@)
}

/// The mathematical value of a batch.
pub ghost struct BatchView {
    pub batch_id: u128,
    pub transactions: Seq<TransactionView>,
    pub timestamp: u64,
    pub size: usize,
    pub priority_score: u64,
}

impl View for TransactionBatch {
    type V = BatchView;

    open spec fn view(&self) -> BatchView {
        BatchView {
            batch_id: self.batch_id,
            transactions: transaction_views(self.transactions@),
            timestamp: self.timestamp,
            size: self.size,
            priority_score: self.priority_score,
        }
    }
}

/// The views of a list of batches.
pub open spec fn batch_views(batches: Seq<TransactionBatch>) -> Seq<BatchView> {
    Seq::new(batches.len(), |i: int| batches[i]@)
}

/// Sum of the fees of the first `n` transactions.
pub open spec fn fee_sum(transactions: Seq<TransactionView>, n: int) -> nat
    decreases n,
{
    if n <= 0 {
        0
    } else {
        fee_sum(transactions, n - 1) + transactions[n - 1].fee as nat
    }
}

/// Mean fee of transactions, rounded down; 0 for none.
pub open spec fn mean_fee(transactions: Seq<TransactionView>) -> nat {
    if transactions.len() == 0 {
        0
    } else {
        fee_sum(transactions, transactions.len() as int) / transactions.len()
    }
}

/// A sum of fees is at most as many times the largest fee.
pub proof fn lemma_fee_sum_bound(transactions: Seq<TransactionView>, n: int)
    requires
        0 <= n <= transactions.len(),
    ensures
        fee_sum(transactions, n) <= n * u64::MAX,
    decreases n,
{
    if n > 0 {
        lemma_fee_sum_bound(transactions, n - 1);
        assert((n - 1) * u64::MAX + u64::MAX == n * u64::MAX) by (nonlinear_arith);
    }
}

/// Computes the priority of a batch: the mean fee of its transactions.
pub fn calculate_batch_priority(transactions: &Vec<Transaction>) -> (priority: u64)
    ensures
        priority == mean_fee(transaction_views(transactions@)),
{
    if transactions.len() == 0 {
        return 0;
    }
    let ghost views = transaction_views(transactions@);
    let mut sum: u128 = 0;
    let mut i: usize = 0;
    while i < transactions.len()
        invariant
            i <= transactions@.len(),
            views == transaction_views(transactions@),
            sum == fee_sum(views, i as int),
            sum <= i * u64::MAX,
        decreases transactions@.len() - i,
    {
        proof {
            lemma_fee_sum_bound(views, i + 1);
            assert(views[i as int].fee == transactions@[i as int].fee);
            assert(i * u64::MAX <= usize::MAX * u64::MAX) by (nonlinear_arith)
                requires
                    0 <= i <= usize::MAX,
            ;
        }
        sum = sum + transactions[i].fee as u128;
        i += 1;
    }
    let count: u128 = transactions.len() as u128;
    let mean: u128 = sum / count;
    assert(mean <= u64::MAX) by (nonlinear_arith)
        requires
            mean == sum / count,
            sum <= count * u64::MAX,
            count > 0,
    ;
    mean as u64
}

impl TransactionBatch {
    /// The batch of given transactions under a given identifier, made at
    /// time `now`.
    pub fn with_id(batch_id: u128, transactions: Vec<Transaction>, now: u64) -> (batch:
        TransactionBatch)
        ensures
            batch.batch_id == batch_id,
            batch@.transactions == transaction_views(transactions@),
            batch.timestamp == now,
            batch.size == transactions@.len(),
            batch.priority_score == mean_fee(transaction_views(transactions@)),
    {
        let size = transactions.len();
        let priority_score = calculate_batch_priority(&transactions);
        TransactionBatch { batch_id, transactions, timestamp: now, size, priority_score }
    }

    /// The identifiers of the batch's transactions.
    pub fn ids(&self) -> (ids: Vec<u128>)
        ensures
            ids@.len() == self.transactions@.len(),
            forall|i: int| 0 <= i < ids@.len() ==> ids@[i] == self.transactions@[i].id,
    {
        let mut ids: Vec<u128> = Vec::new();
        let mut i: usize = 0;
        while i < self.transactions.len()
            invariant
                i <= self.transactions@.len(),
                ids@.len() == i,
                forall|j: int| 0 <= j < i ==> ids@[j] == self.transactions@[j].id,
            decreases self.transactions@.len() - i,
        {
            ids.push(self.transactions[i].id);
            i += 1;
        }
        ids
    }
}

/// Number of batches into which `n` items are cut when a batch holds at most
/// `size` of them.
pub open spec fn batch_count(n: nat, size: nat) -> nat {
    if size == 0 {
        0
    } else {
        ((n + size - 1) / (size as int)) as nat
    }
}

/// Where batch `k` begins among the items.
pub open spec fn batch_start(size: nat, k: int) -> int {
    k * size
}

/// Where batch `k` ends among `n` items.
pub open spec fn batch_end(n: nat, size: nat, k: int) -> int {
    if (k + 1) * size < n {
        (k + 1) * size
    } else {
        n as int
    }
}

impl GraphView {
    /// The pending transactions in the order of the queue.
    pub open spec fn pending_transactions(self) -> Seq<TransactionView> {
        Seq::new(self.pending.len(), |k: int| self.node(self.pending[k]).transaction)
    }

    /// Whether `batches` cut the pending queue into pieces of at most `size`
    /// transactions, made at time `now`: every piece but the last is full,
    /// the pieces follow the order of the queue, and each carries its size
    /// and the mean fee of its transactions.
    pub open spec fn cut_into(self, batches: Seq<TransactionBatch>, size: nat, now: u64) -> bool {
        &&& batches.len() == batch_count(self.pending.len(), size)
        &&& forall|k: int|
            0 <= k < batches.len() ==> (#[trigger] batches[k])@.transactions
                == self.pending_transactions().subrange(
                batch_start(size, k),
                batch_end(self.pending.len(), size, k),
            ) && batches[k].timestamp == now && batches[k].size == batches[k].transactions@.len()
                && batches[k].priority_score == mean_fee(batches[k]@.transactions)
    }
}

impl GraphView {
    /// Whether batches with these values cut the pending queue into pieces
    /// of at most `size` transactions, made at time `now`: every piece but
    /// the last is full, the pieces follow the order of the queue, and each
    /// carries its size and the mean fee of its transactions.
    pub open spec fn cut_as(self, batches: Seq<BatchView>, size: nat, now: u64) -> bool {
        &&& batches.len() == batch_count(self.pending.len(), size)
        &&& forall|k: int|
            0 <= k < batches.len() ==> (#[trigger] batches[k]).transactions
                == self.pending_transactions().subrange(
                batch_start(size, k),
                batch_end(self.pending.len(), size, k),
            ) && batches[k].timestamp == now && batches[k].size == batches[k].transactions.len()
                && batches[k].priority_score == mean_fee(batches[k].transactions)
    }

    /// Batches that cut the queue have values that cut the queue.
    pub proof fn lemma_cut_views(self, batches: Seq<TransactionBatch>, size: nat, now: u64)
        requires
            self.cut_into(batches, size, now),
        ensures
            self.cut_as(batch_views(batches), size, now),
    {
        let views = batch_views(batches);
        assert forall|k: int| 0 <= k < views.len() implies (#[trigger] views[k]).transactions
            == self.pending_transactions().subrange(
            batch_start(size, k),
            batch_end(self.pending.len(), size, k),
        ) && views[k].timestamp == now && views[k].size == views[k].transactions.len()
            && views[k].priority_score == mean_fee(views[k].transactions) by {
            assert(views[k] == batches[k]@);
        }
    }
}

/// Cuts the pending queue of a ledger into batches of at most `size`
/// transactions, stamped with `now`. The identifiers of the batches are
/// fresh.
pub fn cut_pending(ledger: &AdvancedDAGLedger, size: usize, now: u64) -> (batches: Vec<
    TransactionBatch,
>)
    requires
        ledger.wf(),
        size > 0,
    ensures
        ledger@.graph.cut_into(batches@, size as nat, now),
{
    let pending = ledger.pending_transactions();
    let ghost graph = ledger@.graph;
    let ghost all = graph.pending_transactions();
    let n = pending.len();
    let mut batches: Vec<TransactionBatch> = Vec::new();
    let mut start: usize = 0;
    proof {
        if n == 0 {
            assert((0 + size - 1) / (size as int) == 0) by (nonlinear_arith)
                requires
                    size > 0,
            ;
        }
        assert(0 * size == 0) by (nonlinear_arith);
    }
    while start < n
        invariant
            ledger.wf(),
            graph == ledger@.graph,
            all == graph.pending_transactions(),
            all.len() == n,
            pending@ == graph.pending,
            n == pending@.len(),
            size > 0,
            start <= n,
            start < n ==> start == batches@.len() * size,
            start == n ==> batches@.len() == batch_count(n as nat, size as nat),
            forall|k: int|
                0 <= k < batches@.len() ==> (#[trigger] batches@[k])@.transactions == all.subrange(
                    batch_start(size as nat, k),
                    batch_end(n as nat, size as nat, k),
                ) && batches@[k].timestamp == now && batches@[k].size
                    == batches@[k].transactions@.len() && batches@[k].priority_score == mean_fee(
                    batches@[k]@.transactions,
                ),
        decreases n - start,
    {
        let end: usize = if n - start > size {
            start + size
        } else {
            n
        };
        let ghost k = batches@.len() as int;
        proof {
            lemma_batch_bounds(n as nat, size as nat, k);
            assert((k + 1) * size == k * size + size) by (nonlinear_arith);
            assert(start == batch_start(size as nat, k));
            assert(end == batch_end(n as nat, size as nat, k));
        }
        let mut transactions: Vec<Transaction> = Vec::new();
        let mut i: usize = start;
        while i < end
            invariant
                ledger.wf(),
                graph == ledger@.graph,
                all == graph.pending_transactions(),
                all.len() == n,
                pending@ == graph.pending,
                start <= i <= end <= n,
                n == pending@.len(),
                k == batches@.len(),
                start == batch_start(size as nat, k),
                end == batch_end(n as nat, size as nat, k),
                k * size < n,
                transaction_views(transactions@) == all.subrange(start as int, i as int),
            decreases end - i,
        {
            proof {
                assert(graph.pending_entry_ok(i as int));
            }
            match ledger.get_transaction(pending[i]) {
                Some(transaction) => {
                    let ghost last = transaction@;
                    let ghost views = transaction_views(transactions@);
                    assert(all[i as int] == last);
                    transactions.push(transaction);
                    proof {
                        let grown = transaction_views(transactions@);
                        let want = all.subrange(start as int, i + 1);
                        assert(views.len() == i - start);
                        assert(grown.len() == want.len());
                        assert forall|j: int| 0 <= j < grown.len() implies grown[j] == want[j] by {
                            if j < views.len() {
                                assert(grown[j] == views[j]);
                                assert(views[j] == all.subrange(start as int, i as int)[j]);
                            } else {
                                assert(grown[j] == last);
                            }
                        }
                        assert(grown =~= want);
                    }
                },
                None => {
                    assert(false);
                },
            }
            i += 1;
        }
        let ghost before = batches@;
        let ghost piece = transaction_views(transactions@);
        batches.push(TransactionBatch::with_id(fresh_id(), transactions, now));
        proof {
            if end == n {
                lemma_batch_last(n as nat, size as nat, k);
            } else {
                lemma_batch_more(n as nat, size as nat, k);
            }
            let grown = batches@;
            assert forall|m: int| 0 <= m < grown.len() implies (#[trigger] grown[m])@.transactions
                == all.subrange(
                batch_start(size as nat, m),
                batch_end(n as nat, size as nat, m),
            ) && grown[m].timestamp == now && grown[m].size == grown[m].transactions@.len()
                && grown[m].priority_score == mean_fee(grown[m]@.transactions) by {
                if m == k {
                    assert(grown[m]@.transactions == piece);
                } else {
                    assert(grown[m] == before[m]);
                }
            }
        }
        start = end;
    }
    batches
}

/// Batch `k` begins before the items end exactly when it is one of the
/// batches.
proof fn lemma_batch_bounds(n: nat, size: nat, k: int)
    requires
        size > 0,
        0 <= k,
        k * size < n,
    ensures
        k < batch_count(n, size),
{
    assert(k < (n + size - 1) / (size as int)) by (nonlinear_arith)
        requires
            size > 0,
            0 <= k,
            k * size < n,
    ;
}

/// The batch that reaches the end of the items is the last.
proof fn lemma_batch_last(n: nat, size: nat, k: int)
    requires
        size > 0,
        0 <= k,
        k * size < n,
        n <= (k + 1) * size,
    ensures
        k + 1 == batch_count(n, size),
{
    assert((n + size - 1) / (size as int) == k + 1) by (nonlinear_arith)
        requires
            size > 0,
            0 <= k,
            k * size < n,
            n <= (k + 1) * size,
    ;
}

/// A batch that ends before the items do is followed by another.
proof fn lemma_batch_more(n: nat, size: nat, k: int)
    requires
        size > 0,
        0 <= k,
        (k + 1) * size < n,
    ensures
        k + 1 < batch_count(n, size),
{
    assert(k + 1 < (n + size - 1) / (size as int)) by (nonlinear_arith)
        requires
            size > 0,
            0 <= k,
            (k + 1) * size < n,
    ;
}

/// Batch `k` of the batches holds the items from its start to its end, which
/// lie within the items.
pub proof fn lemma_batch_piece(n: nat, size: nat, k: int)
    requires
        size > 0,
        0 <= k < batch_count(n, size),
    ensures
        0 <= batch_start(size, k) < n,
        batch_start(size, k) < batch_end(n, size, k) <= n,
        batch_end(n, size, k) == (if (k + 1) * size < n {
            (k + 1) * size
        } else {
            n as int
        }),
{
    assert(k * size < n && 0 <= k * size) by (nonlinear_arith)
        requires
            size > 0,
            0 <= k < (n + size - 1) / (size as int),
    ;
    assert((k + 1) * size == k * size + size) by (nonlinear_arith);
}

/// The batches reach the end of the items.
pub proof fn lemma_batches_cover(n: nat, size: nat)
    requires
        size > 0,
    ensures
        batch_count(n, size) * size >= n,
{
    assert(((n + size - 1) / (size as int)) * size >= n) by (nonlinear_arith)
        requires
            size > 0,
    ;
}

/// The worker to which batch `k` is dealt when batches go round the workers
/// in turn.
pub open spec fn worker_of(k: nat, workers: nat) -> nat {
    if workers == 0 {
        0
    } else {
        k % workers
    }
}

/// Deals batches to workers in turn: batch `k` goes to worker `k` modulo the
/// number of workers.
pub fn dispatch_plan(batches: usize, workers: usize) -> (plan: Vec<usize>)
    requires
        workers > 0,
    ensures
        plan@.len() == batches,
        forall|k: int| 0 <= k < batches ==> plan@[k] == worker_of(k as nat, workers as nat),
        forall|k: int| 0 <= k < batches ==> plan@[k] < workers,
{
    let mut plan: Vec<usize> = Vec::new();
    let mut k: usize = 0;
    while k < batches
        invariant
            workers > 0,
            k <= batches,
            plan@.len() == k,
            forall|m: int| 0 <= m < k ==> plan@[m] == worker_of(m as nat, workers as nat),
            forall|m: int| 0 <= m < k ==> plan@[m] < workers,
        decreases batches - k,
    {
        plan.push(k % workers);
        k += 1;
    }
    plan
}

} // verus!
