//! Facts about a graph that takes in a transaction.

use vstd::prelude::*;
use crate::dag::model::{Admission, GraphView, NodeView};
use crate::transaction::{TransactionStatus, TransactionView};

verus! {

impl GraphView {
    /// At most one place in the queue suits a score.
    pub proof fn lemma_queue_position_unique(self, score: u128, p: int, q: int)
        requires
            self.is_queue_position(score, p),
            self.is_queue_position(score, q),
        ensures
            p == q,
    {
        if p < q {
            assert(self.priority_of(self.pending[p]) >= score);
        } else if q < p {
            assert(self.priority_of(self.pending[q]) >= score);
        }
    }

    /// Some place in the queue suits every score.
    pub proof fn lemma_queue_position_exists(self, score: u128)
        ensures
            self.is_queue_position(score, self.queue_position(score)),
    {
        let p = self.first_lower(score, 0);
        self.lemma_first_lower(score, 0);
        assert(self.is_queue_position(score, p));
    }

    /// The first place at or behind `from` whose entry has a lower score, or
    /// the end of the queue.
    pub open spec fn first_lower(self, score: u128, from: int) -> int
        decreases self.pending.len() - from,
    {
        if from < 0 || from >= self.pending.len() {
            self.pending.len() as int
        } else if self.priority_of(self.pending[from]) < score {
            from
        } else {
            self.first_lower(score, from + 1)
        }
    }

    proof fn lemma_first_lower(self, score: u128, from: int)
        requires
            0 <= from <= self.pending.len(),
        ensures
            from <= self.first_lower(score, from) <= self.pending.len(),
            forall|k: int|
                from <= k < self.first_lower(score, from) ==> self.priority_of(
                    #[trigger] self.pending[k],
                ) >= score,
            self.first_lower(score, from) < self.pending.len() ==> self.priority_of(
                self.pending[self.first_lower(score, from)],
            ) < score,
        decreases self.pending.len() - from,
    {
        if from < self.pending.len() && !(self.priority_of(self.pending[from]) < score) {
            self.lemma_first_lower(score, from + 1);
        }
    }

    /// What is stored stays where it is when a transaction enters, with its
    /// status and its score; the new transaction is found last.
    pub proof fn lemma_entered_lookup(self, t: TransactionView, score: u128)
        requires
            self.ids_unique(),
            !self.contains(t.id),
        ensures
            self.entered(t, score).ids_unique(),
            self.entered(t, score).nodes.len() == self.nodes.len() + 1,
            forall|i: int|
                0 <= i < self.nodes.len() ==> #[trigger] self.entered(t, score).id_at(i)
                    == self.id_at(i),
            self.entered(t, score).id_at(self.nodes.len() as int) == t.id,
            forall|id: u128| #[trigger]
                self.entered(t, score).contains(id) <==> self.contains(id) || id == t.id,
            self.entered(t, score).index_of(t.id) == self.nodes.len(),
            self.entered(t, score).status_of(t.id) == t.status,
            self.entered(t, score).priority_of(t.id) == score,
            self.entered(t, score).node(t.id) == NodeView::fresh(t, score),
    {
        let h = self.entered(t, score);
        let n = self.nodes.len() as int;
        assert forall|i: int| 0 <= i < n implies #[trigger] h.id_at(i) == self.id_at(i) by {}
        assert(h.id_at(n) == t.id);
        assert forall|i: int, j: int| 0 <= i < j < h.nodes.len() implies #[trigger] h.id_at(i)
            != #[trigger] h.id_at(j) by {
            if j == n {
                assert(self.id_at(i) == h.id_at(i));
            } else {
                assert(self.id_at(i) != self.id_at(j));
            }
        }
        assert forall|id: u128| #[trigger] h.contains(id) <==> self.contains(id) || id
            == t.id by {
            if h.contains(id) {
                h.lemma_contains(id);
                let i = h.index_of(id);
                if i < n {
                    assert(self.id_at(i) == id);
                }
            }
            if id == t.id {
                assert(h.id_at(n) == id);
            }
            if self.contains(id) {
                self.lemma_contains(id);
                assert(h.id_at(self.index_of(id)) == id);
            }
        }
        h.lemma_index(n);
    }

    /// A stored transaction keeps its place, its status and its score when
    /// another enters.
    pub proof fn lemma_entered_keeps(self, t: TransactionView, score: u128, id: u128)
        requires
            self.ids_unique(),
            !self.contains(t.id),
            self.contains(id),
        ensures
            self.entered(t, score).contains(id),
            self.entered(t, score).index_of(id) == self.index_of(id),
            self.entered(t, score).status_of(id) == self.status_of(id),
            self.entered(t, score).priority_of(id) == self.priority_of(id),
            self.entered(t, score).node(id).transaction == self.node(id).transaction,
    {
        let h = self.entered(t, score);
        self.lemma_entered_lookup(t, score);
        self.lemma_contains(id);
        let i = self.index_of(id);
        assert(h.id_at(i) == id);
        h.lemma_index(i);
    }

    /// A graph that takes in an accepted transaction stays consistent.
    pub proof fn lemma_entered_ok(self, t: TransactionView, score: u128)
        requires
            self.graph_ok(),
            self.admission(t) == Admission::Accepted,
        ensures
            self.entered(t, score).graph_ok(),
    {
        let h = self.entered(t, score);
        let n = self.nodes.len() as int;
        let p = self.queue_position(score);
        self.lemma_queue_position_exists(score);
        self.lemma_entered_lookup(t, score);
        // parents
        assert forall|i: int| 0 <= i < h.nodes.len() implies #[trigger] h.parents_ok(i) by {
            if i < n {
                assert(self.parents_ok(i));
                self.lemma_parent_kept(t, score, i, self.nodes[i].transaction.parent1);
                self.lemma_parent_kept(t, score, i, self.nodes[i].transaction.parent2);
            } else {
                self.lemma_parent_found(t, score, t.parent1);
                self.lemma_parent_found(t, score, t.parent2);
            }
        }
        // children
        assert forall|i: int| 0 <= i < h.nodes.len() implies #[trigger] h.children_ok(i) by {
            self.lemma_children_kept(t, score, i);
        }
        // queue
        self.lemma_queue_kept(t, score);
    }

    proof fn lemma_parent_kept(self, t: TransactionView, score: u128, i: int, parent: Option<u128>)
        requires
            self.ids_unique(),
            !self.contains(t.id),
            0 <= i < self.nodes.len(),
            self.parent_resolves(i, parent),
        ensures
            self.entered(t, score).parent_resolves(i, parent),
    {
        let h = self.entered(t, score);
        if let Some(p) = parent {
            let j = choose|j: int| 0 <= j < i && #[trigger] self.id_at(j) == p;
            assert(h.id_at(j) == p);
        }
    }

    proof fn lemma_parent_found(self, t: TransactionView, score: u128, parent: Option<u128>)
        requires
            self.ids_unique(),
            !self.contains(t.id),
            parent matches Some(p) ==> self.contains(p),
        ensures
            self.entered(t, score).parent_resolves(self.nodes.len() as int, parent),
    {
        let h = self.entered(t, score);
        if let Some(p) = parent {
            self.lemma_contains(p);
            let j = self.index_of(p);
            assert(h.id_at(j) == p);
        }
    }

    proof fn lemma_children_kept(self, t: TransactionView, score: u128, i: int)
        requires
            self.graph_ok(),
            self.admission(t) == Admission::Accepted,
            0 <= i <= self.nodes.len(),
        ensures
            self.entered(t, score).children_ok(i),
    {
        let h = self.entered(t, score);
        let n = self.nodes.len() as int;
        self.lemma_entered_lookup(t, score);
        assert forall|j: int| 0 <= j < n implies h.nodes[j].transaction
            == self.nodes[j].transaction by {}
        if i < n {
            assert(self.children_ok(i));
            let old_children = self.nodes[i].children;
            let new_children = h.nodes[i].children;
            assert forall|child: u128| #[trigger] new_children.contains(child) implies h.lists_child(
                i,
                child,
            ) by {
                if old_children.contains(child) {
                    assert(self.lists_child(i, child));
                    let j = choose|j: int|
                        0 <= j < self.nodes.len() && #[trigger] self.id_at(j) == child
                            && self.is_child(i, j);
                    assert(h.id_at(j) == child && h.is_child(i, j));
                } else {
                    assert(child == t.id);
                    assert(h.id_at(n) == t.id && h.is_child(i, n));
                }
            }
            assert forall|j: int|
                0 <= j < h.nodes.len() && #[trigger] h.is_child(i, j) implies new_children.contains(
                h.id_at(j),
            ) by {
                if j < n {
                    assert(self.is_child(i, j));
                    assert(old_children.contains(self.id_at(j)));
                } else {
                    assert(t.has_parent(self.id_at(i)));
                    assert(new_children == old_children.insert(t.id));
                }
            }
        } else {
            // nothing stored names the new transaction as a parent
            assert(h.nodes[n].children == Set::<u128>::empty());
            assert forall|j: int| 0 <= j < h.nodes.len() implies !#[trigger] h.is_child(n, j) by {
                if j < n {
                    assert(self.parents_ok(j));
                    if self.nodes[j].transaction.parent1 == Some(t.id) {
                        assert(self.parent_resolves(j, self.nodes[j].transaction.parent1));
                        assert(self.contains(t.id));
                    }
                    if self.nodes[j].transaction.parent2 == Some(t.id) {
                        assert(self.parent_resolves(j, self.nodes[j].transaction.parent2));
                        assert(self.contains(t.id));
                    }
                } else {
                    assert(!self.missing_parent(t));
                }
            }
        }
    }

    proof fn lemma_queue_kept(self, t: TransactionView, score: u128)
        requires
            self.graph_ok(),
            self.admission(t) == Admission::Accepted,
        ensures
            self.entered(t, score).pending_ok(),
    {
        let h = self.entered(t, score);
        let n = self.nodes.len() as int;
        let p = self.queue_position(score);
        self.lemma_queue_position_exists(score);
        self.lemma_entered_lookup(t, score);
        let old_q = self.pending;
        let new_q = h.pending;
        assert(new_q == old_q.insert(p, t.id));
        assert forall|k: int| 0 <= k < old_q.len() implies self.contains(#[trigger] old_q[k])
            && old_q[k] != t.id by {
            assert(self.pending_entry_ok(k));
        }
        assert forall|k: int| 0 <= k < new_q.len() implies #[trigger] h.pending_entry_ok(k) by {
            if k < p {
                assert(new_q[k] == old_q[k]);
                assert(self.pending_entry_ok(k));
                self.lemma_entered_keeps(t, score, old_q[k]);
            } else if k > p {
                assert(new_q[k] == old_q[k - 1]);
                assert(self.pending_entry_ok(k - 1));
                self.lemma_entered_keeps(t, score, old_q[k - 1]);
            }
        }
        assert forall|a: int, b: int|
            0 <= a < new_q.len() && 0 <= b < new_q.len() && a != b implies new_q[a]
            != new_q[b] by {
            let oa = if a < p {
                a
            } else {
                a - 1
            };
            let ob = if b < p {
                b
            } else {
                b - 1
            };
            if a != p && b != p {
                assert(new_q[a] == old_q[oa] && new_q[b] == old_q[ob]);
                assert(old_q[oa] != old_q[ob]);
            } else if a == p {
                assert(new_q[b] == old_q[ob]);
            } else {
                assert(new_q[a] == old_q[oa]);
            }
        }
        assert forall|i: int|
            0 <= i < h.nodes.len() && h.nodes[i].transaction.status
                == TransactionStatus::Pending implies new_q.contains(#[trigger] h.id_at(i)) by {
            if i < n {
                assert(self.nodes[i].transaction.status == TransactionStatus::Pending);
                assert(old_q.contains(self.id_at(i)));
                let k = choose|k: int| 0 <= k < old_q.len() && old_q[k] == self.id_at(i);
                if k < p {
                    assert(new_q[k] == h.id_at(i));
                } else {
                    assert(new_q[k + 1] == h.id_at(i));
                }
            } else {
                assert(new_q[p] == t.id);
            }
        }
        assert forall|a: int, b: int| 0 <= a < b < new_q.len() implies h.priority_of(
            #[trigger] new_q[a],
        ) >= h.priority_of(#[trigger] new_q[b]) by {
            if a != p {
                self.lemma_entered_keeps(t, score, old_q[if a < p {
                    a
                } else {
                    a - 1
                }]);
            }
            if b != p {
                self.lemma_entered_keeps(t, score, old_q[if b < p {
                    b
                } else {
                    b - 1
                }]);
            }
            if b < p {
                assert(new_q[a] == old_q[a] && new_q[b] == old_q[b]);
            } else if b == p {
                assert(new_q[a] == old_q[a]);
                assert(self.priority_of(old_q[a]) >= score);
            } else if a < p {
                assert(new_q[a] == old_q[a] && new_q[b] == old_q[b - 1]);
            } else if a == p {
                assert(new_q[b] == old_q[b - 1]);
                assert(self.priority_of(old_q[p]) < score);
                if b - 1 > p {
                    assert(self.priority_of(old_q[p]) >= self.priority_of(old_q[b - 1]));
                }
            } else {
                assert(new_q[a] == old_q[a - 1] && new_q[b] == old_q[b - 1]);
            }
        }
    }
}

} // verus!
