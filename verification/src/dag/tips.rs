//! Facts about the selection of tips.

use vstd::prelude::*;
use crate::dag::model::GraphView;

verus! {

impl GraphView {
    /// The tips with one more placed at `p`, cut back to the cache's capacity.
    pub open spec fn placed(self, tips: Seq<u128>, p: int, id: u128) -> Seq<u128> {
        let grown = tips.insert(p, id);
        if grown.len() > self.max_tips {
            grown.drop_last()
        } else {
            grown
        }
    }

    /// The order of tips is transitive, and of two different transactions one
    /// ranks before the other.
    pub proof fn lemma_rank_order(self, a: u128, b: u128, c: u128)
        ensures
            self.ranks_before(a, b) && self.ranks_before(b, c) ==> self.ranks_before(a, c),
            a != b ==> self.ranks_before(a, b) || self.ranks_before(b, a),
            !(self.ranks_before(a, b) && self.ranks_before(b, a)),
    {
    }

    /// A node that is no tip leaves the selection as it is.
    pub proof fn lemma_select_skip(self, tips: Seq<u128>, n: int)
        requires
            0 <= n < self.nodes.len(),
            self.selects_among(tips, n),
            !self.tip_at(n) || self.max_tips == 0,
        ensures
            self.selects_among(tips, n + 1),
    {
        assert forall|i: int|
            0 <= i < n + 1 && #[trigger] self.tip_at(i) && !tips.contains(
                self.id_at(i),
            ) implies tips.len() == self.max_tips && self.outranked(tips, self.id_at(i)) by {
            if i == n {
                assert(self.max_tips == 0);
            }
        }
    }

    /// A tip that every selected tip outranks stays out of a full selection.
    pub proof fn lemma_select_outranked(self, tips: Seq<u128>, n: int)
        requires
            0 <= n < self.nodes.len(),
            self.selects_among(tips, n),
            tips.len() == self.max_tips,
            self.outranked(tips, self.id_at(n)),
        ensures
            self.selects_among(tips, n + 1),
    {
    }

    /// A tip placed where its rank puts it, with the last tip dropped when
    /// the cache overflows, gives the selection among one node more.
    pub proof fn lemma_select_place(self, tips: Seq<u128>, n: int, p: int)
        requires
            self.ids_unique(),
            0 <= n < self.nodes.len(),
            self.selects_among(tips, n),
            self.tip_at(n),
            0 <= p <= tips.len(),
            p < self.max_tips,
            forall|k: int| 0 <= k < p ==> self.ranks_before(#[trigger] tips[k], self.id_at(n)),
            p < tips.len() ==> self.ranks_before(self.id_at(n), tips[p]),
        ensures
            self.selects_among(self.placed(tips, p, self.id_at(n)), n + 1),
    {
        let id = self.id_at(n);
        let grown = tips.insert(p, id);
        let result = self.placed(tips, p, id);
        self.lemma_index(n);
        assert(self.is_tip(id));
        // the grown sequence is in rank order
        assert forall|a: int, b: int| 0 <= a < b < grown.len() implies self.ranks_before(
            #[trigger] grown[a],
            #[trigger] grown[b],
        ) by {
            if b < p {
                assert(grown[a] == tips[a] && grown[b] == tips[b]);
            } else if b == p {
                assert(grown[a] == tips[a]);
            } else if a < p {
                assert(grown[a] == tips[a] && grown[b] == tips[b - 1]);
            } else if a == p {
                assert(grown[b] == tips[b - 1]);
                if b - 1 > p {
                    assert(self.ranks_before(tips[p], tips[b - 1]));
                    self.lemma_rank_order(id, tips[p], tips[b - 1]);
                }
            } else {
                assert(grown[a] == tips[a - 1] && grown[b] == tips[b - 1]);
            }
        }
        assert forall|k: int| 0 <= k < grown.len() implies self.is_tip(#[trigger] grown[k])
            && self.index_of(grown[k]) < n + 1 by {
            if k < p {
                assert(grown[k] == tips[k]);
            } else if k > p {
                assert(grown[k] == tips[k - 1]);
            }
        }
        assert forall|k: int| 0 <= k < result.len() implies self.is_tip(#[trigger] result[k])
            && self.index_of(result[k]) < n + 1 by {
            assert(result[k] == grown[k]);
        }
        assert forall|a: int, b: int| 0 <= a < b < result.len() implies self.ranks_before(
            #[trigger] result[a],
            #[trigger] result[b],
        ) by {
            assert(result[a] == grown[a] && result[b] == grown[b]);
        }
        assert forall|i: int|
            0 <= i < n + 1 && #[trigger] self.tip_at(i) && !result.contains(
                self.id_at(i),
            ) implies result.len() == self.max_tips && self.outranked(result, self.id_at(i)) by {
            let other = self.id_at(i);
            if i == n {
                // the new tip stands at p, which is kept
                assert(result[p] == id);
                assert(result.contains(id));
            } else if tips.contains(other) {
                // a tip that was selected and is no more: the one that was dropped
                let k = choose|k: int| 0 <= k < tips.len() && tips[k] == other;
                if k < p {
                    assert(result[k] == other);
                    assert(false);
                } else if k + 1 < result.len() {
                    assert(result[k + 1] == other);
                    assert(false);
                }
                assert(grown.len() > self.max_tips);
                assert(k + 1 == grown.len() - 1);
                assert forall|m: int| 0 <= m < result.len() implies self.ranks_before(
                    #[trigger] result[m],
                    other,
                ) by {
                    assert(result[m] == grown[m]);
                    assert(grown[k + 1] == other);
                    assert(self.ranks_before(grown[m], grown[k + 1]));
                }
            } else {
                // a tip that was outranked before
                assert(tips.len() == self.max_tips);
                assert(self.outranked(tips, other));
                assert(p < tips.len());
                assert(self.ranks_before(tips[p], other));
                self.lemma_rank_order(id, tips[p], other);
                assert forall|m: int| 0 <= m < result.len() implies self.ranks_before(
                    #[trigger] result[m],
                    other,
                ) by {
                    if m < p {
                        assert(result[m] == tips[m]);
                    } else if m == p {
                        assert(result[m] == id);
                    } else {
                        assert(result[m] == tips[m - 1]);
                    }
                }
            }
        }
    }

    /// The selection of tips is unique: two sequences that both are the
    /// selection of one graph are equal.
    pub proof fn lemma_selection_unique(self, first: Seq<u128>, second: Seq<u128>)
        requires
            self.ids_unique(),
            self.is_tip_selection(first),
            self.is_tip_selection(second),
        ensures
            first == second,
    {
        self.lemma_selection_prefix(first, second, first.len() as int);
        self.lemma_selection_prefix(second, first, second.len() as int);
        assert(first =~= second);
    }

    /// Two selections agree on every position that both have, and neither is
    /// shorter than the other.
    proof fn lemma_selection_prefix(self, first: Seq<u128>, second: Seq<u128>, upto: int)
        requires
            self.ids_unique(),
            self.is_tip_selection(first),
            self.is_tip_selection(second),
            0 <= upto <= first.len(),
        ensures
            upto <= second.len(),
            forall|k: int| 0 <= k < upto ==> first[k] == second[k],
        decreases upto,
    {
        if upto > 0 {
            self.lemma_selection_prefix(first, second, upto - 1);
            let k = upto - 1;
            let a = first[k];
            assert(self.is_tip(a));
            self.lemma_contains(a);
            let ia = self.index_of(a);
            assert(self.tip_at(ia));
            // `a` is not among the first k of `second`: they are those of `first`
            assert forall|m: int| 0 <= m < k implies second[m] != a by {
                assert(first[m] == second[m]);
                assert(self.ranks_before(first[m], first[k]));
            }
            if k >= second.len() {
                // `second` ended: it is full, so `first` is too long or `a`
                // would have to be outranked by itself
                assert(!second.contains(a));
                assert(second.len() == self.max_tips);
                assert(false);
            }
            let b = second[k];
            if a != b {
                assert(self.is_tip(b));
                self.lemma_contains(b);
                let ib = self.index_of(b);
                assert(self.tip_at(ib));
                self.lemma_rank_order(a, b, a);
                if self.ranks_before(a, b) {
                    // then `a` must stand in `second`, behind position k
                    if second.contains(a) {
                        let m = choose|m: int| 0 <= m < second.len() && second[m] == a;
                        assert(m > k);
                        assert(self.ranks_before(second[k], second[m]));
                    } else {
                        assert(self.outranked(second, a));
                        assert(self.ranks_before(second[k], a));
                    }
                    assert(false);
                } else {
                    assert forall|m: int| 0 <= m < k implies first[m] != b by {
                        assert(first[m] == second[m]);
                        assert(self.ranks_before(second[m], second[k]));
                    }
                    if first.contains(b) {
                        let m = choose|m: int| 0 <= m < first.len() && first[m] == b;
                        assert(m > k);
                        assert(self.ranks_before(first[k], first[m]));
                    } else {
                        assert(self.outranked(first, b));
                        assert(self.ranks_before(first[k], b));
                    }
                    assert(false);
                }
            }
        }
    }
}

} // verus!
