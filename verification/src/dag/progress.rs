//! Facts about a graph in which a transaction changes its status.

use vstd::prelude::*;
use crate::dag::model::{GraphView, NodeView};
use crate::transaction::{TransactionStatus, TransactionView};

verus! {

/// A queue without one of its entries.
pub open spec fn without(queue: Seq<u128>, id: u128) -> Seq<u128> {
    if queue.contains(id) {
        queue.remove(queue.index_of(id))
    } else {
        queue
    }
}

impl NodeView {
    /// The same node with another status and validation time.
    pub open spec fn moved(self, status: TransactionStatus, validated_at: Option<u64>) -> NodeView {
        NodeView { transaction: self.transaction.with_status(status), validated_at, ..self }
    }
}

impl GraphView {
    /// The graph after the node at `i` has taken a status and a validation
    /// time: it has left the pending queue, and nothing else has changed.
    pub open spec fn moved(
        self,
        i: int,
        status: TransactionStatus,
        validated_at: Option<u64>,
    ) -> GraphView {
        GraphView {
            nodes: self.nodes.update(i, self.nodes[i].moved(status, validated_at)),
            pending: without(self.pending, self.id_at(i)),
            ..self
        }
    }

    /// Whether a transaction can be validated: it is stored and pending, or
    /// validated already.
    pub open spec fn can_validate(self, id: u128) -> bool {
        self.contains(id) && (self.status_of(id) == TransactionStatus::Pending || self.status_of(id)
            == TransactionStatus::Validated)
    }

    /// The graph after a validation at time `now`: a pending transaction is
    /// validated and stamped, a validated one stays as it is.
    pub open spec fn after_validate(self, id: u128, now: u64) -> GraphView {
        if self.status_of(id) == TransactionStatus::Pending {
            self.moved(self.index_of(id), TransactionStatus::Validated, Some(now))
        } else {
            self
        }
    }

    /// Whether a transaction can be confirmed: it is stored and not rejected.
    pub open spec fn can_confirm(self, id: u128) -> bool {
        self.contains(id) && self.status_of(id) != TransactionStatus::Rejected
    }

    /// The graph after a confirmation at time `now`: a validated transaction
    /// is confirmed, a pending one is validated at `now` and confirmed at
    /// once, a confirmed one stays as it is.
    pub open spec fn after_confirm(self, id: u128, now: u64) -> GraphView {
        if self.status_of(id) == TransactionStatus::Pending {
            self.moved(self.index_of(id), TransactionStatus::Confirmed, Some(now))
        } else if self.status_of(id) == TransactionStatus::Validated {
            self.moved(
                self.index_of(id),
                TransactionStatus::Confirmed,
                self.node(id).validated_at,
            )
        } else {
            self
        }
    }

    /// Whether a transaction can be rejected: it is stored and pending, or
    /// rejected already.
    pub open spec fn can_reject(self, id: u128) -> bool {
        self.contains(id) && (self.status_of(id) == TransactionStatus::Pending || self.status_of(id)
            == TransactionStatus::Rejected)
    }

    /// The graph after a rejection: a pending transaction is rejected, a
    /// rejected one stays as it is.
    pub open spec fn after_reject(self, id: u128) -> GraphView {
        if self.status_of(id) == TransactionStatus::Pending {
            self.moved(
                self.index_of(id),
                TransactionStatus::Rejected,
                self.node(id).validated_at,
            )
        } else {
            self
        }
    }

    /// Number of nodes among the first `n` that have a given status.
    pub open spec fn count_status(self, status: TransactionStatus, n: int) -> nat
        decreases n,
    {
        if n <= 0 {
            0
        } else if self.nodes[n - 1].transaction.status == status {
            1 + self.count_status(status, n - 1)
        } else {
            self.count_status(status, n - 1)
        }
    }

    /// Number of stored transactions that have a given status.
    pub open spec fn total_with(self, status: TransactionStatus) -> nat {
        self.count_status(status, self.nodes.len() as int)
    }

    /// No more nodes have a status than there are nodes.
    pub proof fn lemma_count_bound(self, status: TransactionStatus, n: int)
        requires
            0 <= n,
        ensures
            self.count_status(status, n) <= n,
        decreases n,
    {
        if n > 0 {
            self.lemma_count_bound(status, n - 1);
        }
    }

    /// Every transaction of this graph is still stored at its place in
    /// `next`, unchanged but for its status, which has only moved along the
    /// steps that a status may take.
    pub open spec fn advances_to(self, next: GraphView) -> bool {
        &&& self.nodes.len() <= next.nodes.len()
        &&& self.max_tips == next.max_tips
        &&& forall|i: int|
            0 <= i < self.nodes.len() ==> (#[trigger] self.nodes[i]).transaction.status.reaches(
                next.nodes[i].transaction.status,
            ) && next.nodes[i].transaction == self.nodes[i].transaction.with_status(
                next.nodes[i].transaction.status,
            )
    }

    /// Advancing is reflexive and transitive: whatever sequence of operations
    /// leads from one graph to another, no status ever went back.
    pub proof fn lemma_advances(self, middle: GraphView, last: GraphView)
        ensures
            self.advances_to(self),
            self.advances_to(middle) && middle.advances_to(last) ==> self.advances_to(last),
    {
        if self.advances_to(middle) && middle.advances_to(last) {
            assert forall|i: int| 0 <= i < self.nodes.len() implies (
            #[trigger] self.nodes[i]).transaction.status.reaches(last.nodes[i].transaction.status)
                && last.nodes[i].transaction == self.nodes[i].transaction.with_status(
                last.nodes[i].transaction.status,
            ) by {
                assert(self.nodes[i].transaction.status.reaches(
                    middle.nodes[i].transaction.status,
                ));
                assert(middle.nodes[i].transaction.status.reaches(
                    last.nodes[i].transaction.status,
                ));
            }
        }
    }

    /// A stored transaction is stored in every graph that this one advances
    /// to, at the same place and with a status it could reach.
    pub proof fn lemma_advances_keeps(self, next: GraphView, id: u128)
        requires
            self.ids_unique(),
            next.ids_unique(),
            self.advances_to(next),
            self.contains(id),
        ensures
            next.contains(id),
            next.index_of(id) == self.index_of(id),
            self.status_of(id).reaches(next.status_of(id)),
            next.priority_of(id) == next.nodes[self.index_of(id)].priority_score,
    {
        self.lemma_contains(id);
        let i = self.index_of(id);
        assert(self.nodes[i].transaction.status.reaches(next.nodes[i].transaction.status));
        assert(next.id_at(i) == id);
        next.lemma_index(i);
    }

    /// A transaction that enters an accepting graph makes the graph advance.
    pub proof fn lemma_entered_advances(self, t: TransactionView, score: u128)
        ensures
            self.advances_to(self.entered(t, score)),
    {
        let h = self.entered(t, score);
        assert forall|i: int| 0 <= i < self.nodes.len() implies (
        #[trigger] self.nodes[i]).transaction.status.reaches(h.nodes[i].transaction.status)
            && h.nodes[i].transaction == self.nodes[i].transaction.with_status(
            h.nodes[i].transaction.status,
        ) by {}
    }

    /// What a change of status leaves as it was: every place, every other
    /// status, every score.
    pub proof fn lemma_moved_lookup(
        self,
        i: int,
        status: TransactionStatus,
        validated_at: Option<u64>,
        id: u128,
    )
        requires
            self.ids_unique(),
            0 <= i < self.nodes.len(),
        ensures
            self.moved(i, status, validated_at).ids_unique(),
            self.moved(i, status, validated_at).contains(id) == self.contains(id),
            self.contains(id) ==> self.moved(i, status, validated_at).index_of(id)
                == self.index_of(id),
            self.contains(id) ==> self.moved(i, status, validated_at).priority_of(id)
                == self.priority_of(id),
            self.contains(id) && id != self.id_at(i) ==> self.moved(
                i,
                status,
                validated_at,
            ).status_of(id) == self.status_of(id),
            self.moved(i, status, validated_at).status_of(self.id_at(i)) == status,
    {
        let h = self.moved(i, status, validated_at);
        assert forall|j: int| 0 <= j < self.nodes.len() implies #[trigger] h.id_at(j)
            == self.id_at(j) by {}
        assert forall|a: int, b: int| 0 <= a < b < h.nodes.len() implies #[trigger] h.id_at(a)
            != #[trigger] h.id_at(b) by {
            assert(self.id_at(a) != self.id_at(b));
        }
        if self.contains(id) {
            self.lemma_contains(id);
            let j = self.index_of(id);
            assert(h.id_at(j) == id);
            h.lemma_index(j);
            self.lemma_index(i);
        }
        if h.contains(id) {
            h.lemma_contains(id);
            assert(self.id_at(h.index_of(id)) == id);
        }
        self.lemma_index(i);
        h.lemma_index(i);
    }

    /// A graph stays consistent when a transaction takes a status that is not
    /// pending and that its status can reach.
    pub proof fn lemma_moved_ok(
        self,
        i: int,
        status: TransactionStatus,
        validated_at: Option<u64>,
    )
        requires
            self.graph_ok(),
            0 <= i < self.nodes.len(),
            status != TransactionStatus::Pending,
            self.nodes[i].transaction.status.reaches(status),
        ensures
            self.moved(i, status, validated_at).graph_ok(),
            self.advances_to(self.moved(i, status, validated_at)),
    {
        let h = self.moved(i, status, validated_at);
        let id = self.id_at(i);
        self.lemma_moved_lookup(i, status, validated_at, id);
        assert forall|j: int| 0 <= j < self.nodes.len() implies #[trigger] h.id_at(j)
            == self.id_at(j) && h.nodes[j].children == self.nodes[j].children
            && h.nodes[j].transaction.parent1 == self.nodes[j].transaction.parent1
            && h.nodes[j].transaction.parent2 == self.nodes[j].transaction.parent2 by {}
        assert forall|j: int| 0 <= j < h.nodes.len() implies #[trigger] h.parents_ok(j) by {
            assert(self.parents_ok(j));
            if let Some(p) = self.nodes[j].transaction.parent1 {
                let w = choose|w: int| 0 <= w < j && #[trigger] self.id_at(w) == p;
                assert(h.id_at(w) == p);
            }
            if let Some(p) = self.nodes[j].transaction.parent2 {
                let w = choose|w: int| 0 <= w < j && #[trigger] self.id_at(w) == p;
                assert(h.id_at(w) == p);
            }
        }
        assert forall|j: int| 0 <= j < h.nodes.len() implies #[trigger] h.children_ok(j) by {
            assert(self.children_ok(j));
            let children = self.nodes[j].children;
            assert forall|child: u128| #[trigger] children.contains(child) implies h.lists_child(
                j,
                child,
            ) by {
                assert(self.lists_child(j, child));
                let w = choose|w: int|
                    0 <= w < self.nodes.len() && #[trigger] self.id_at(w) == child
                        && self.is_child(j, w);
                assert(h.id_at(w) == child && h.is_child(j, w));
            }
            assert forall|w: int|
                0 <= w < h.nodes.len() && #[trigger] h.is_child(j, w) implies h.nodes[j].children.contains(
            h.id_at(w)) by {
                assert(self.is_child(j, w));
            }
        }
        self.lemma_moved_queue(i, status, validated_at);
        assert forall|j: int| 0 <= j < self.nodes.len() implies (
        #[trigger] self.nodes[j]).transaction.status.reaches(h.nodes[j].transaction.status)
            && h.nodes[j].transaction == self.nodes[j].transaction.with_status(
            h.nodes[j].transaction.status,
        ) by {}
    }

    proof fn lemma_moved_queue(
        self,
        i: int,
        status: TransactionStatus,
        validated_at: Option<u64>,
    )
        requires
            self.graph_ok(),
            0 <= i < self.nodes.len(),
            status != TransactionStatus::Pending,
        ensures
            self.moved(i, status, validated_at).pending_ok(),
    {
        let h = self.moved(i, status, validated_at);
        let id = self.id_at(i);
        let old_q = self.pending;
        let new_q = h.pending;
        self.lemma_index(i);
        if old_q.contains(id) {
            let r = old_q.index_of(id);
            assert(0 <= r < old_q.len() && old_q[r] == id);
            assert(new_q == old_q.remove(r));
            assert forall|k: int| 0 <= k < new_q.len() implies new_q[k] == old_q[if k < r {
                k
            } else {
                k + 1
            }] by {}
            assert forall|k: int| 0 <= k < new_q.len() implies #[trigger] h.pending_entry_ok(
                k,
            ) by {
                let o = if k < r {
                    k
                } else {
                    k + 1
                };
                assert(self.pending_entry_ok(o));
                assert(old_q[o] != old_q[r]);
                self.lemma_moved_lookup(i, status, validated_at, old_q[o]);
            }
            assert forall|a: int, b: int|
                0 <= a < new_q.len() && 0 <= b < new_q.len() && a != b implies new_q[a]
                != new_q[b] by {
                let oa = if a < r {
                    a
                } else {
                    a + 1
                };
                let ob = if b < r {
                    b
                } else {
                    b + 1
                };
                assert(old_q[oa] != old_q[ob]);
            }
            assert forall|j: int|
                0 <= j < h.nodes.len() && h.nodes[j].transaction.status
                    == TransactionStatus::Pending implies new_q.contains(
                #[trigger] h.id_at(j),
            ) by {
                assert(j != i);
                assert(old_q.contains(self.id_at(j)));
                let k = choose|k: int| 0 <= k < old_q.len() && old_q[k] == self.id_at(j);
                assert(self.id_at(j) != self.id_at(i));
                if k < r {
                    assert(new_q[k] == h.id_at(j));
                } else {
                    assert(new_q[k - 1] == h.id_at(j));
                }
            }
            assert forall|a: int, b: int| 0 <= a < b < new_q.len() implies h.priority_of(
                #[trigger] new_q[a],
            ) >= h.priority_of(#[trigger] new_q[b]) by {
                let oa = if a < r {
                    a
                } else {
                    a + 1
                };
                let ob = if b < r {
                    b
                } else {
                    b + 1
                };
                assert(self.pending_entry_ok(oa));
                assert(self.pending_entry_ok(ob));
                self.lemma_moved_lookup(i, status, validated_at, old_q[oa]);
                self.lemma_moved_lookup(i, status, validated_at, old_q[ob]);
                assert(self.priority_of(old_q[oa]) >= self.priority_of(old_q[ob]));
            }
        } else {
            assert(new_q == old_q);
            assert forall|k: int| 0 <= k < new_q.len() implies #[trigger] h.pending_entry_ok(
                k,
            ) by {
                assert(self.pending_entry_ok(k));
                assert(old_q.contains(old_q[k]));
                self.lemma_moved_lookup(i, status, validated_at, old_q[k]);
            }
            assert forall|j: int|
                0 <= j < h.nodes.len() && h.nodes[j].transaction.status
                    == TransactionStatus::Pending implies new_q.contains(
                #[trigger] h.id_at(j),
            ) by {
                assert(j != i);
                assert(old_q.contains(self.id_at(j)));
            }
            assert forall|a: int, b: int| 0 <= a < b < new_q.len() implies h.priority_of(
                #[trigger] new_q[a],
            ) >= h.priority_of(#[trigger] new_q[b]) by {
                assert(self.pending_entry_ok(a));
                assert(self.pending_entry_ok(b));
                self.lemma_moved_lookup(i, status, validated_at, old_q[a]);
                self.lemma_moved_lookup(i, status, validated_at, old_q[b]);
                assert(self.priority_of(old_q[a]) >= self.priority_of(old_q[b]));
            }
        }
    }
}

} // verus!
