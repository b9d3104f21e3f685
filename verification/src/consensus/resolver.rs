//! Resolution of conflicts by voting.
//!
//! A poll on a conflict has a configured number of rounds; in every round
//! one vote is cast on every candidate, in their order. The first candidate
//! that wins a configured share of its rounds is confirmed, and every other
//! candidate is rejected. How a vote is cast is left to a strategy, which
//! keeps account of the votes that it casts; the strategy of reference flips
//! a fair coin. What a poll does is stated over that account: which
//! candidates were asked about, how the answers are tallied, and what the
//! tallies decide.

use vstd::prelude::*;
use crate::ambient::coin_flip;
use crate::consensus::conflict::{conflict_views, Conflict, ConflictView};
use crate::dag::ledger::AdvancedDAGLedger;
use crate::dag::model::GraphView;
use crate::error::SDUPIError;
use crate::transaction::TransactionStatus;

verus! {

/// A way to cast votes on candidates. A strategy keeps account of the votes
/// that it has cast.
pub trait VotingStrategy {
    /// The votes cast so far, the oldest first: for each the candidate that
    /// was asked about and the answer that was given. A strategy that casts
    /// votes says here where it keeps its account.
    open spec fn cast(&self) -> Seq<(u128, bool)> {
        Seq::empty()
    }

    /// Casts one vote for or against a candidate.
    fn vote(&mut self, candidate: u128) -> (answer: bool)
        ensures
            final(self).cast() == old(self).cast().push((candidate, answer)),
    ;
}

/// The strategy of reference: every vote is a fair coin flip.
#[derive(Clone, Copy)]
pub struct CoinFlipVoting {
    account: Ghost<Seq<(u128, bool)>>,
}

impl CoinFlipVoting {
    /// A strategy that has cast no vote.
    pub fn new() -> (strategy: CoinFlipVoting)
        ensures
            strategy.cast().len() == 0,
    {
        CoinFlipVoting { account: Ghost(Seq::empty()) }
    }
}

impl VotingStrategy for CoinFlipVoting {
    closed spec fn cast(&self) -> Seq<(u128, bool)> {
        self.account@
    }

    fn vote(&mut self, candidate: u128) -> (answer: bool) {
        let answer = coin_flip();
        self.account = Ghost(self.account@.push((candidate, answer)));
        answer
    }
}

/// Whether the account `after` continues the account `before`.
pub open spec fn continues(before: Seq<(u128, bool)>, after: Seq<(u128, bool)>) -> bool {
    before.len() <= after.len() && forall|i: int|
        0 <= i < before.len() ==> #[trigger] after[i] == before[i]
}

/// The votes that the account `after` holds behind those of `before`.
pub open spec fn votes_since(before: Seq<(u128, bool)>, after: Seq<(u128, bool)>) -> Seq<
    (u128, bool),
> {
    after.subrange(before.len() as int, after.len() as int)
}

/// The place, among the votes of a poll on `n` candidates, of the vote on
/// candidate `c` in round `r`: the rounds follow each other, and in each
/// round the candidates are asked about in their order.
pub open spec fn vote_place(n: nat, r: int, c: int) -> int {
    r * n + c
}

/// Whether votes are those of a poll on candidates in a number of rounds:
/// in every round one vote is cast on every candidate, in their order.
pub open spec fn is_poll(votes: Seq<(u128, bool)>, candidates: Seq<u128>, rounds: nat) -> bool {
    &&& votes.len() == rounds * candidates.len()
    &&& forall|r: int, c: int|
        0 <= r < rounds && 0 <= c < candidates.len() ==> votes[#[trigger] vote_place(
            candidates.len(),
            r,
            c,
        )].0 == candidates[c]
}

/// Number of the first `rounds` rounds of a poll on `n` candidates in which
/// the vote on candidate `c` is in its favour.
pub open spec fn favourable(votes: Seq<(u128, bool)>, n: nat, c: int, rounds: int) -> nat
    decreases rounds,
{
    if rounds <= 0 {
        0
    } else {
        favourable(votes, n, c, rounds - 1) + (if votes[vote_place(n, rounds - 1, c)].1 {
            1nat
        } else {
            0nat
        })
    }
}

/// The tallies of a poll on `n` candidates in a number of rounds: for each
/// candidate the number of rounds in which the vote is in its favour.
pub open spec fn tallies_of(votes: Seq<(u128, bool)>, n: nat, rounds: u64) -> Seq<u64> {
    Seq::new(n, |c: int| favourable(votes, n, c, rounds as int) as u64)
}

/// The vote on candidate `c` in round `r` stands before the vote on
/// candidate `d` in round `q` when the round is earlier, or the round is the
/// same and the candidate comes earlier.
pub proof fn lemma_vote_place(n: nat, r: int, c: int, q: int, d: int)
    requires
        0 <= r,
        0 <= c < n,
        0 <= d <= n,
        r < q || (r == q && c < d),
    ensures
        0 <= vote_place(n, r, c) < vote_place(n, q, d),
{
    assert(0 <= r * n) by (nonlinear_arith)
        requires
            0 <= r,
            0 <= n,
    ;
    if r < q {
        assert((r + 1) * n <= q * n) by (nonlinear_arith)
            requires
                r + 1 <= q,
                0 <= n,
        ;
        assert((r + 1) * n == r * n + n) by (nonlinear_arith);
    }
}

/// A candidate has no more favourable votes than there are rounds.
pub proof fn lemma_favourable_bound(votes: Seq<(u128, bool)>, n: nat, c: int, rounds: int)
    requires
        0 <= rounds,
    ensures
        favourable(votes, n, c, rounds) <= rounds,
    decreases rounds,
{
    if rounds > 0 {
        lemma_favourable_bound(votes, n, c, rounds - 1);
    }
}

/// The favourable votes of the first rounds are those that stand in the
/// account, whatever votes follow them.
pub proof fn lemma_favourable_stands(
    votes: Seq<(u128, bool)>,
    more: Seq<(u128, bool)>,
    n: nat,
    c: int,
    rounds: int,
)
    requires
        0 <= c < n,
        0 <= rounds,
        votes.len() <= more.len(),
        forall|i: int| 0 <= i < votes.len() ==> more[i] == votes[i],
        rounds == 0 || vote_place(n, rounds - 1, c) < votes.len(),
    ensures
        favourable(more, n, c, rounds) == favourable(votes, n, c, rounds),
    decreases rounds,
{
    if rounds > 0 {
        if rounds > 1 {
            lemma_vote_place(n, rounds - 2, c, rounds - 1, c + 1);
            assert(vote_place(n, rounds - 1, c + 1) == vote_place(n, rounds - 1, c) + 1);
        }
        lemma_favourable_stands(votes, more, n, c, rounds - 1);
        lemma_vote_place(n, rounds - 1, c, rounds - 1, c + 1);
    }
}

/// Whether a candidate with `votes` of `rounds` votes has won the share of
/// `threshold` hundredths.
pub open spec fn reaches_threshold(votes: u64, rounds: u64, threshold: u64) -> bool {
    rounds > 0 && votes * 100 >= threshold * rounds
}

/// Whether `w` is the place of the winner: the first candidate whose votes
/// reach the threshold.
pub open spec fn is_winner(tallies: Seq<u64>, rounds: u64, threshold: u64, w: int) -> bool {
    &&& 0 <= w < tallies.len()
    &&& reaches_threshold(tallies[w], rounds, threshold)
    &&& forall|k: int| 0 <= k < w ==> !reaches_threshold(#[trigger] tallies[k], rounds, threshold)
}

/// Whether any candidate has won.
pub open spec fn has_winner(tallies: Seq<u64>, rounds: u64, threshold: u64) -> bool {
    exists|w: int| is_winner(tallies, rounds, threshold, w)
}

/// The place of the winner.
pub open spec fn winner_of(tallies: Seq<u64>, rounds: u64, threshold: u64) -> int {
    choose|w: int| is_winner(tallies, rounds, threshold, w)
}

/// There is at most one winner.
pub proof fn lemma_winner_unique(tallies: Seq<u64>, rounds: u64, threshold: u64, a: int, b: int)
    requires
        is_winner(tallies, rounds, threshold, a),
        is_winner(tallies, rounds, threshold, b),
    ensures
        a == b,
{
    if a < b {
        assert(!reaches_threshold(tallies[a], rounds, threshold));
    } else if b < a {
        assert(!reaches_threshold(tallies[b], rounds, threshold));
    }
}

/// Whether votes reach the threshold.
pub fn threshold_reached(votes: u64, rounds: u64, threshold: u64) -> (reached: bool)
    ensures
        reached == reaches_threshold(votes, rounds, threshold),
{
    if rounds == 0 {
        return false;
    }
    let won: u128 = votes as u128 * 100;
    assert(threshold * rounds <= u64::MAX * u64::MAX) by (nonlinear_arith)
        requires
            0 <= threshold <= u64::MAX,
            0 <= rounds <= u64::MAX,
    ;
    let needed: u128 = threshold as u128 * rounds as u128;
    won >= needed
}

/// Finds the winner among the tallies.
pub fn pick_winner(tallies: &Vec<u64>, rounds: u64, threshold: u64) -> (winner: Option<usize>)
    ensures
        winner is Some <==> has_winner(tallies@, rounds, threshold),
        winner matches Some(w) ==> is_winner(tallies@, rounds, threshold, w as int) && w
            == winner_of(tallies@, rounds, threshold),
{
    let mut k: usize = 0;
    while k < tallies.len()
        invariant
            k <= tallies@.len(),
            forall|m: int| 0 <= m < k ==> !reaches_threshold(#[trigger] tallies@[m], rounds, threshold),
        decreases tallies@.len() - k,
    {
        if threshold_reached(tallies[k], rounds, threshold) {
            proof {
                assert(is_winner(tallies@, rounds, threshold, k as int));
                lemma_winner_unique(
                    tallies@,
                    rounds,
                    threshold,
                    k as int,
                    winner_of(tallies@, rounds, threshold),
                );
            }
            return Some(k);
        }
        k += 1;
    }
    proof {
        if has_winner(tallies@, rounds, threshold) {
            let w = winner_of(tallies@, rounds, threshold);
            assert(reaches_threshold(tallies@[w], rounds, threshold));
        }
    }
    None
}

/// Holds a poll: in each of the rounds one vote is cast on every candidate,
/// in their order. The tally of a candidate counts the votes in its favour.
pub fn collect_votes<V: VotingStrategy>(strategy: &mut V, candidates: &Vec<u128>, rounds: u64) -> (tallies:
    Vec<u64>)
    ensures
        continues(old(strategy).cast(), final(strategy).cast()),
        is_poll(
            votes_since(old(strategy).cast(), final(strategy).cast()),
            candidates@,
            rounds as nat,
        ),
        tallies@ == tallies_of(
            votes_since(old(strategy).cast(), final(strategy).cast()),
            candidates@.len(),
            rounds,
        ),
        tallies@.len() == candidates@.len(),
        forall|k: int| 0 <= k < tallies@.len() ==> tallies@[k] <= rounds,
{
    let ghost before = strategy.cast();
    let ghost n = candidates@.len();
    let mut tallies: Vec<u64> = Vec::new();
    let mut k: usize = 0;
    while k < candidates.len()
        invariant
            k <= candidates@.len(),
            tallies@.len() == k,
            forall|m: int| 0 <= m < k ==> tallies@[m] == 0,
        decreases candidates@.len() - k,
    {
        tallies.push(0);
        k += 1;
    }
    let mut round: u64 = 0;
    proof {
        assert(round * n == 0) by (nonlinear_arith)
            requires
                round == 0,
        ;
    }
    while round < rounds
        invariant
            round <= rounds,
            n == candidates@.len(),
            tallies@.len() == n,
            continues(before, strategy.cast()),
            votes_since(before, strategy.cast()).len() == vote_place(n, round as int, 0),
            forall|r: int, c: int|
                0 <= r < round && 0 <= c < n ==> votes_since(
                    before,
                    strategy.cast(),
                )[#[trigger] vote_place(n, r, c)].0 == candidates@[c],
            forall|m: int|
                0 <= m < n ==> #[trigger] tallies@[m] == favourable(
                    votes_since(before, strategy.cast()),
                    n,
                    m,
                    round as int,
                ),
        decreases rounds - round,
    {
        let mut c: usize = 0;
        while c < candidates.len()
            invariant
                round < rounds,
                c <= candidates@.len(),
                n == candidates@.len(),
                tallies@.len() == n,
                continues(before, strategy.cast()),
                votes_since(before, strategy.cast()).len() == vote_place(
                    n,
                    round as int,
                    c as int,
                ),
                forall|r: int, d: int|
                    0 <= r && 0 <= d < n && (r < round || (r == round && d < c)) ==> votes_since(
                        before,
                        strategy.cast(),
                    )[#[trigger] vote_place(n, r, d)].0 == candidates@[d],
                forall|m: int|
                    0 <= m < c ==> #[trigger] tallies@[m] == favourable(
                        votes_since(before, strategy.cast()),
                        n,
                        m,
                        round + 1,
                    ),
                forall|m: int|
                    c <= m < n ==> #[trigger] tallies@[m] == favourable(
                        votes_since(before, strategy.cast()),
                        n,
                        m,
                        round as int,
                    ),
            decreases candidates@.len() - c,
        {
            let ghost account = strategy.cast();
            let ghost votes = votes_since(before, account);
            let ghost counted = tallies@;
            let answer = strategy.vote(candidates[c]);
            let ghost more = votes_since(before, strategy.cast());
            proof {
                assert(more =~= votes.push((candidates@[c as int], answer)));
                lemma_favourable_bound(votes, n, c as int, round as int);
            }
            if answer {
                let count = tallies[c];
                tallies.set(c, count + 1);
            }
            proof {
                let here = vote_place(n, round as int, c as int);
                assert forall|r: int, d: int|
                    0 <= r && 0 <= d < n && (r < round || (r == round && d < c + 1)) implies more[
                    #[trigger] vote_place(n, r, d)].0 == candidates@[d] by {
                    if r == round && d == c {
                    } else {
                        lemma_vote_place(n, r, d, round as int, c as int);
                    }
                }
                assert forall|m: int| 0 <= m < c + 1 implies #[trigger] tallies@[m] == favourable(
                    more,
                    n,
                    m,
                    round + 1,
                ) by {
                    if m < c {
                        lemma_vote_place(n, round as int, m, round as int, c as int);
                        lemma_favourable_stands(votes, more, n, m, round + 1);
                        assert(counted[m] == tallies@[m]);
                    } else {
                        if round > 0 {
                            lemma_vote_place(n, round - 1, m, round as int, c as int);
                        }
                        lemma_favourable_stands(votes, more, n, m, round as int);
                        assert(more[here] == (candidates@[c as int], answer));
                    }
                }
                assert forall|m: int| c + 1 <= m < n implies #[trigger] tallies@[m] == favourable(
                    more,
                    n,
                    m,
                    round as int,
                ) by {
                    if round > 0 {
                        lemma_vote_place(n, round - 1, m, round as int, c as int);
                    }
                    lemma_favourable_stands(votes, more, n, m, round as int);
                    assert(counted[m] == tallies@[m]);
                }
            }
            c += 1;
        }
        proof {
            assert(vote_place(n, round as int, n as int) == vote_place(n, round + 1, 0))
                by (nonlinear_arith);
        }
        round += 1;
    }
    proof {
        let votes = votes_since(before, strategy.cast());
        assert forall|m: int| 0 <= m < n implies tallies@[m] == #[trigger] tallies_of(
            votes,
            n,
            rounds,
        )[m] && tallies@[m] <= rounds by {
            lemma_favourable_bound(votes, n, m, rounds as int);
        }
        assert(tallies@ =~= tallies_of(votes, n, rounds));
    }
    tallies
}

impl GraphView {
    /// Whether a conflict can be settled in favour of `winner`: the winner is
    /// stored and not rejected, and every other candidate is stored and
    /// either pending or rejected already.
    pub open spec fn can_settle(self, ids: Seq<u128>, winner: u128) -> bool {
        &&& self.contains(winner)
        &&& self.status_of(winner) != TransactionStatus::Rejected
        &&& forall|k: int|
            0 <= k < ids.len() && ids[k] != winner ==> self.contains(#[trigger] ids[k]) && (
            self.status_of(ids[k]) == TransactionStatus::Pending || self.status_of(ids[k])
                == TransactionStatus::Rejected)
    }

    /// The status that a settlement gives to the node at `i`: confirmed for
    /// the winner, rejected for every other candidate, and its old status
    /// for every transaction outside the conflict.
    pub open spec fn settled_status(self, ids: Seq<u128>, winner: u128, i: int) -> TransactionStatus {
        if self.id_at(i) == winner {
            TransactionStatus::Confirmed
        } else if ids.contains(self.id_at(i)) {
            TransactionStatus::Rejected
        } else {
            self.nodes[i].transaction.status
        }
    }

    /// Whether `next` is this graph after the settlement of a conflict in
    /// favour of `winner`.
    pub open spec fn settles_to(self, next: GraphView, ids: Seq<u128>, winner: u128) -> bool {
        &&& self.advances_to(next)
        &&& next.nodes.len() == self.nodes.len()
        &&& forall|i: int|
            0 <= i < self.nodes.len() ==> (#[trigger] next.nodes[i]).transaction.status
                == self.settled_status(ids, winner, i)
        &&& forall|i: int|
            0 <= i < self.nodes.len() && self.id_at(i) != winner && !ids.contains(self.id_at(i))
                ==> #[trigger] next.nodes[i] == self.nodes[i]
    }

    /// The graph after the first `n` candidates other than the winner are
    /// rejected, in order.
    pub open spec fn rejected_upto(self, ids: Seq<u128>, winner: u128, n: int) -> GraphView
        decreases n,
    {
        if n <= 0 {
            self
        } else if ids[n - 1] != winner {
            self.rejected_upto(ids, winner, n - 1).after_reject(ids[n - 1])
        } else {
            self.rejected_upto(ids, winner, n - 1)
        }
    }

    /// The graph after the settlement of a conflict in favour of `winner` at
    /// time `now`: the winner is confirmed, then every other candidate is
    /// rejected, in the order of the candidates.
    pub open spec fn settled(self, ids: Seq<u128>, winner: u128, now: u64) -> GraphView {
        self.after_confirm(winner, now).rejected_upto(ids, winner, ids.len() as int)
    }

    /// After a settlement exactly the winner among the candidates is
    /// confirmed, and every other candidate is rejected.
    pub proof fn lemma_settlement_exclusive(self, next: GraphView, ids: Seq<u128>, winner: u128, id: u128)
        requires
            self.ids_unique(),
            next.ids_unique(),
            self.settles_to(next, ids, winner),
            self.contains(id),
            ids.contains(id) || id == winner,
        ensures
            next.contains(id),
            id == winner ==> next.status_of(id) == TransactionStatus::Confirmed,
            id != winner ==> next.status_of(id) == TransactionStatus::Rejected,
    {
        self.lemma_advances_keeps(next, id);
        self.lemma_contains(id);
        let i = self.index_of(id);
        assert(next.nodes[i].transaction.status == self.settled_status(ids, winner, i));
    }
}

/// Whether a conflict can be settled in favour of one of its candidates.
pub fn can_settle(ledger: &AdvancedDAGLedger, ids: &Vec<u128>, winner: u128) -> (possible: bool)
    requires
        ledger.wf(),
    ensures
        possible == ledger@.graph.can_settle(ids@, winner),
{
    match ledger.status_of(winner) {
        None => {
            return false;
        },
        Some(status) => {
            if status == TransactionStatus::Rejected {
                return false;
            }
        },
    }
    let mut k: usize = 0;
    while k < ids.len()
        invariant
            ledger.wf(),
            k <= ids@.len(),
            forall|m: int|
                0 <= m < k && ids@[m] != winner ==> ledger@.graph.contains(#[trigger] ids@[m]) && (
                ledger@.graph.status_of(ids@[m]) == TransactionStatus::Pending
                    || ledger@.graph.status_of(ids@[m]) == TransactionStatus::Rejected),
        decreases ids@.len() - k,
    {
        if ids[k] != winner {
            match ledger.status_of(ids[k]) {
                None => {
                    return false;
                },
                Some(status) => {
                    if status != TransactionStatus::Pending && status
                        != TransactionStatus::Rejected {
                        return false;
                    }
                },
            }
        }
        k += 1;
    }
    true
}

/// Settles a conflict in favour of `winner` at time `now`: the winner is
/// confirmed and every other candidate is rejected.
pub fn settle(ledger: &mut AdvancedDAGLedger, ids: &Vec<u128>, winner: u128, now: u64)
    requires
        old(ledger).wf(),
        old(ledger)@.graph.can_settle(ids@, winner),
    ensures
        final(ledger).wf(),
        final(ledger).config() == old(ledger).config(),
        final(ledger).metrics() == old(ledger).metrics(),
        final(ledger)@.graph == old(ledger)@.graph.settled(ids@, winner, now),
        old(ledger)@.graph.settles_to(final(ledger)@.graph, ids@, winner),
{
    let ghost start = ledger@.graph;
    proof {
        start.lemma_contains(winner);
    }
    let confirmed = ledger.confirm_transaction(winner, now);
    assert(confirmed is Ok);
    let ghost first = ledger@.graph;
    let ghost w = start.index_of(winner);
    proof {
        let cur = ledger@.graph;
        assert(cur.nodes.len() == start.nodes.len());
        assert(cur.nodes[w].transaction.status == TransactionStatus::Confirmed);
        assert forall|i: int| 0 <= i < start.nodes.len() && i != w implies cur.nodes[i]
            == start.nodes[i] by {}
        assert forall|i: int| 0 <= i < start.nodes.len() implies (start.id_at(i) == winner <==> i
            == w) by {
            start.lemma_index(i);
        }
    }
    let mut k: usize = 0;
    while k < ids.len()
        invariant
            ledger.wf(),
            ledger.config() == old(ledger).config(),
            ledger.metrics() == old(ledger).metrics(),
            k <= ids@.len(),
            start == old(ledger)@.graph,
            start.graph_ok(),
            start.can_settle(ids@, winner),
            start.advances_to(ledger@.graph),
            first == start.after_confirm(winner, now),
            ledger@.graph == first.rejected_upto(ids@, winner, k as int),
            ledger@.graph.nodes.len() == start.nodes.len(),
            forall|i: int|
                0 <= i < start.nodes.len() ==> (#[trigger] ledger@.graph.nodes[i]).transaction.status
                    == start.settled_status(ids@.subrange(0, k as int), winner, i),
            forall|i: int|
                0 <= i < start.nodes.len() && start.id_at(i) != winner && !ids@.subrange(
                    0,
                    k as int,
                ).contains(start.id_at(i)) ==> #[trigger] ledger@.graph.nodes[i] == start.nodes[i],
        decreases ids@.len() - k,
    {
        let id = ids[k];
        let ghost cur = ledger@.graph;
        let ghost done = ids@.subrange(0, k as int);
        let ghost more = ids@.subrange(0, k + 1);
        proof {
            assert forall|x: u128| more.contains(x) <==> done.contains(x) || x == id by {
                if more.contains(x) {
                    let m = choose|m: int| 0 <= m < more.len() && more[m] == x;
                    if m < k {
                        assert(done[m] == x);
                    }
                }
                if done.contains(x) {
                    let m = choose|m: int| 0 <= m < done.len() && done[m] == x;
                    assert(more[m] == x);
                }
                assert(more[k as int] == id);
            }
        }
        if id != winner {
            proof {
                assert(start.contains(ids@[k as int]));
                start.lemma_advances_keeps(cur, id);
                start.lemma_contains(id);
                let i = start.index_of(id);
                assert(cur.nodes[i].transaction.status == start.settled_status(done, winner, i));
                assert(cur.can_reject(id));
            }
            let rejected = ledger.reject_transaction(id);
            assert(rejected is Ok);
            proof {
                let next = ledger@.graph;
                let i = start.index_of(id);
                assert(cur.index_of(id) == i);
                start.lemma_advances(cur, next);
                assert(next.nodes.len() == start.nodes.len());
                assert forall|j: int| 0 <= j < start.nodes.len() implies (
                #[trigger] next.nodes[j]).transaction.status == start.settled_status(
                    more,
                    winner,
                    j,
                ) by {
                    start.lemma_index(j);
                    if j == i {
                        assert(next.nodes[j].transaction.status == TransactionStatus::Rejected);
                    } else {
                        assert(next.nodes[j] == cur.nodes[j]);
                        assert(cur.nodes[j].transaction.status == start.settled_status(
                            done,
                            winner,
                            j,
                        ));
                    }
                }
                assert forall|j: int|
                    0 <= j < start.nodes.len() && start.id_at(j) != winner && !more.contains(
                        start.id_at(j),
                    ) implies #[trigger] next.nodes[j] == start.nodes[j] by {
                    start.lemma_index(j);
                    assert(j != i);
                    assert(next.nodes[j] == cur.nodes[j]);
                    assert(cur.nodes[j] == start.nodes[j]);
                }
            }
        } else {
            proof {
                let cur = ledger@.graph;
                assert forall|j: int| 0 <= j < start.nodes.len() implies (
                #[trigger] cur.nodes[j]).transaction.status == start.settled_status(
                    more,
                    winner,
                    j,
                ) by {
                    assert(cur.nodes[j].transaction.status == start.settled_status(
                        done,
                        winner,
                        j,
                    ));
                }
                assert forall|j: int|
                    0 <= j < start.nodes.len() && start.id_at(j) != winner && !more.contains(
                        start.id_at(j),
                    ) implies #[trigger] cur.nodes[j] == start.nodes[j] by {
                    assert(cur.nodes[j] == start.nodes[j]);
                }
            }
        }
        k += 1;
    }
    assert(ids@.subrange(0, ids@.len() as int) =~= ids@);
}

/// How an attempt to resolve a conflict ends.
pub ghost enum Resolution {
    /// The conflict was resolved before.
    AlreadyResolved,
    /// There is not one tally for each candidate.
    TallyMismatch,
    /// No candidate won, or the winner cannot be confirmed or another
    /// candidate cannot be rejected: the conflict stays open.
    Open,
    /// The candidate at this place won and the conflict is settled.
    Settled(int),
}

/// The outcome of an attempt to resolve a conflict with given tallies.
pub open spec fn resolution(
    graph: GraphView,
    conflict: ConflictView,
    tallies: Seq<u64>,
    rounds: u64,
    threshold: u64,
) -> Resolution {
    if conflict.resolved {
        Resolution::AlreadyResolved
    } else if tallies.len() != conflict.transaction_ids.len() {
        Resolution::TallyMismatch
    } else if !has_winner(tallies, rounds, threshold) {
        Resolution::Open
    } else if !graph.can_settle(
        conflict.transaction_ids,
        conflict.transaction_ids[winner_of(tallies, rounds, threshold)],
    ) {
        Resolution::Open
    } else {
        Resolution::Settled(winner_of(tallies, rounds, threshold))
    }
}

/// The graph and the conflict after an attempt to resolve the conflict with
/// given tallies at time `now`: a conflict that is settled is marked
/// resolved, with its winner confirmed and every other candidate rejected;
/// in every other case nothing changes.
pub open spec fn tallies_outcome(
    graph: GraphView,
    conflict: ConflictView,
    tallies: Seq<u64>,
    rounds: u64,
    threshold: u64,
    now: u64,
) -> (GraphView, ConflictView) {
    match resolution(graph, conflict, tallies, rounds, threshold) {
        Resolution::Settled(w) => (
            graph.settled(conflict.transaction_ids, conflict.transaction_ids[w], now),
            ConflictView { resolved: true, ..conflict },
        ),
        _ => (graph, conflict),
    }
}

/// Number of votes that a poll on a conflict takes: one on every candidate
/// in every round, and none on a conflict that is resolved already.
pub open spec fn poll_size(conflict: ConflictView, rounds: u64) -> nat {
    if conflict.resolved {
        0
    } else {
        (rounds * conflict.transaction_ids.len()) as nat
    }
}

/// The graph and the conflict after a poll on the conflict with the votes
/// `poll`, at time `now`: the tallies of the poll decide. A conflict that
/// is resolved already is passed over.
pub open spec fn vote_outcome(
    graph: GraphView,
    conflict: ConflictView,
    poll: Seq<(u128, bool)>,
    rounds: u64,
    threshold: u64,
    now: u64,
) -> (GraphView, ConflictView) {
    if conflict.resolved {
        (graph, conflict)
    } else {
        tallies_outcome(
            graph,
            conflict,
            tallies_of(poll, conflict.transaction_ids.len(), rounds),
            rounds,
            threshold,
            now,
        )
    }
}

/// Whether votes are those of the polls on the conflicts of a list, one
/// poll after the other in the order of the list.
pub open spec fn is_pass(votes: Seq<(u128, bool)>, conflicts: Seq<ConflictView>, rounds: u64) -> bool
    decreases conflicts.len(),
{
    if conflicts.len() == 0 {
        votes.len() == 0
    } else {
        let used = poll_size(conflicts.last(), rounds);
        &&& used <= votes.len()
        &&& is_pass(votes.subrange(0, votes.len() - used), conflicts.drop_last(), rounds)
        &&& (conflicts.last().resolved || is_poll(
            votes.subrange(votes.len() - used, votes.len() as int),
            conflicts.last().transaction_ids,
            rounds as nat,
        ))
    }
}

/// The graph and the conflicts after the polls on the conflicts of a list,
/// one after the other, with the votes `votes`, at time `now`.
pub open spec fn pass_outcome(
    start: GraphView,
    conflicts: Seq<ConflictView>,
    votes: Seq<(u128, bool)>,
    rounds: u64,
    threshold: u64,
    now: u64,
) -> (GraphView, Seq<ConflictView>)
    decreases conflicts.len(),
{
    if conflicts.len() == 0 {
        (start, Seq::<ConflictView>::empty())
    } else {
        let used = poll_size(conflicts.last(), rounds);
        let earlier = pass_outcome(
            start,
            conflicts.drop_last(),
            votes.subrange(0, votes.len() - used),
            rounds,
            threshold,
            now,
        );
        let last = vote_outcome(
            earlier.0,
            conflicts.last(),
            votes.subrange(votes.len() - used, votes.len() as int),
            rounds,
            threshold,
            now,
        );
        (last.0, earlier.1.push(last.1))
    }
}

/// Resolves a conflict with the tallies of a vote, at time `now`.
///
/// A conflict that is resolved already, and tallies that do not match the
/// candidates, are errors. Without a winner the conflict stays open: nothing
/// changes and the answer is `false`. The same holds when the settlement is
/// not possible, because the winner is rejected or not stored, or another
/// candidate is validated, confirmed or not stored. Otherwise the winner is
/// confirmed, every other candidate is rejected, the conflict is marked
/// resolved, and the answer is `true`.
pub fn resolve_with_tallies(
    ledger: &mut AdvancedDAGLedger,
    conflict: &mut Conflict,
    tallies: &Vec<u64>,
    rounds: u64,
    threshold: u64,
    now: u64,
) -> (result: Result<bool, SDUPIError>)
    requires
        old(ledger).wf(),
    ensures
        final(ledger).wf(),
        final(ledger).config() == old(ledger).config(),
        final(ledger).metrics() == old(ledger).metrics(),
        old(ledger)@.graph.advances_to(final(ledger)@.graph),
        final(conflict)@.transaction_ids == old(conflict)@.transaction_ids,
        final(conflict)@.conflict_type == old(conflict)@.conflict_type,
        final(conflict)@.detected_at == old(conflict)@.detected_at,
        (final(ledger)@.graph, final(conflict)@) == tallies_outcome(
            old(ledger)@.graph,
            old(conflict)@,
            tallies@,
            rounds,
            threshold,
            now,
        ),
        match resolution(old(ledger)@.graph, old(conflict)@, tallies@, rounds, threshold) {
            Resolution::AlreadyResolved => (result matches Err(SDUPIError::ConflictResolution(m))
                && m@ == "Conflict is already resolved"@) && final(ledger)@ == old(ledger)@
                && final(conflict)@ == old(conflict)@,
            Resolution::TallyMismatch => (result matches Err(SDUPIError::ConflictResolution(m))
                && m@ == "One tally is needed for each candidate"@)
                    && final(ledger)@ == old(ledger)@ && final(conflict)@ == old(conflict)@,
            Resolution::Open => result == Ok::<bool, SDUPIError>(false)
                && final(ledger)@ == old(ledger)@ && final(conflict)@ == old(conflict)@,
            Resolution::Settled(w) => result == Ok::<bool, SDUPIError>(true)
                && final(conflict)@.resolved && final(ledger)@.graph == old(ledger)@.graph.settled(
                old(conflict)@.transaction_ids,
                old(conflict)@.transaction_ids[w],
                now,
            ) && old(ledger)@.graph.settles_to(
                final(ledger)@.graph,
                old(conflict)@.transaction_ids,
                old(conflict)@.transaction_ids[w],
            ),
        },
{
    proof {
        ledger@.graph.lemma_advances(ledger@.graph, ledger@.graph);
    }
    if conflict.resolved {
        return Err(
            SDUPIError::ConflictResolution(String::from_str("Conflict is already resolved")),
        );
    }
    if tallies.len() != conflict.transaction_ids.len() {
        return Err(
            SDUPIError::ConflictResolution(
                String::from_str("One tally is needed for each candidate"),
            ),
        );
    }
    match pick_winner(tallies, rounds, threshold) {
        None => Ok(false),
        Some(w) => {
            let winner = conflict.transaction_ids[w];
            if !can_settle(ledger, &conflict.transaction_ids, winner) {
                return Ok(false);
            }
            settle(ledger, &conflict.transaction_ids, winner, now);
            conflict.resolved = true;
            Ok(true)
        },
    }
}

/// Resolves a conflict by a poll held with a strategy, at time `now`.
///
/// A conflict that is resolved already is an error: no vote is cast and
/// nothing changes. Otherwise one vote is cast on every candidate in every
/// round, and the tallies of these votes decide as `resolve_with_tallies`
/// says: the first candidate whose favourable votes reach the threshold
/// wins, and the conflict is settled in its favour if the graph allows it.
/// The answer tells whether the conflict is resolved now.
pub fn resolve_conflict_fpc<V: VotingStrategy>(
    ledger: &mut AdvancedDAGLedger,
    conflict: &mut Conflict,
    strategy: &mut V,
    rounds: u64,
    threshold: u64,
    now: u64,
) -> (result: Result<bool, SDUPIError>)
    requires
        old(ledger).wf(),
    ensures
        final(ledger).wf(),
        final(ledger).config() == old(ledger).config(),
        final(ledger).metrics() == old(ledger).metrics(),
        old(ledger)@.graph.advances_to(final(ledger)@.graph),
        final(conflict)@.transaction_ids == old(conflict)@.transaction_ids,
        final(conflict)@.conflict_type == old(conflict)@.conflict_type,
        final(conflict)@.detected_at == old(conflict)@.detected_at,
        continues(old(strategy).cast(), final(strategy).cast()),
        votes_since(old(strategy).cast(), final(strategy).cast()).len() == poll_size(
            old(conflict)@,
            rounds,
        ),
        old(conflict)@.resolved ==> final(strategy).cast() == old(strategy).cast(),
        !old(conflict)@.resolved ==> is_poll(
            votes_since(old(strategy).cast(), final(strategy).cast()),
            old(conflict)@.transaction_ids,
            rounds as nat,
        ),
        (final(ledger)@.graph, final(conflict)@) == vote_outcome(
            old(ledger)@.graph,
            old(conflict)@,
            votes_since(old(strategy).cast(), final(strategy).cast()),
            rounds,
            threshold,
            now,
        ),
        result is Err <==> old(conflict)@.resolved,
        result matches Err(e) ==> e matches SDUPIError::ConflictResolution(m) && m@
            == "Conflict is already resolved"@,
        result matches Ok(settled) ==> settled == final(conflict)@.resolved,
        result is Err ==> final(ledger)@ == old(ledger)@ && final(conflict)@ == old(conflict)@,
        result == Ok::<bool, SDUPIError>(false) ==> final(ledger)@ == old(ledger)@
            && final(conflict)@ == old(conflict)@,
        result == Ok::<bool, SDUPIError>(true) ==> final(conflict)@.resolved && exists|w: int|
            0 <= w < old(conflict)@.transaction_ids.len() && old(ledger)@.graph.can_settle(
                old(conflict)@.transaction_ids,
                #[trigger] old(conflict)@.transaction_ids[w],
            ) && final(ledger)@.graph == old(ledger)@.graph.settled(
                old(conflict)@.transaction_ids,
                old(conflict)@.transaction_ids[w],
                now,
            ) && old(ledger)@.graph.settles_to(
                final(ledger)@.graph,
                old(conflict)@.transaction_ids,
                old(conflict)@.transaction_ids[w],
            ),
{
    proof {
        ledger@.graph.lemma_advances(ledger@.graph, ledger@.graph);
    }
    if conflict.resolved {
        return Err(
            SDUPIError::ConflictResolution(String::from_str("Conflict is already resolved")),
        );
    }
    let tallies = collect_votes(strategy, &conflict.transaction_ids, rounds);
    let result = resolve_with_tallies(ledger, conflict, &tallies, rounds, threshold, now);
    proof {
        match resolution(old(ledger)@.graph, old(conflict)@, tallies@, rounds, threshold) {
            Resolution::Settled(w) => {
                assert(is_winner(tallies@, rounds, threshold, w));
                assert(old(ledger)@.graph.can_settle(
                    old(conflict)@.transaction_ids,
                    old(conflict)@.transaction_ids[w],
                ));
            },
            _ => {},
        }
    }
    result
}

impl GraphView {
    /// Whether a conflict is decided in favour of `winner`: the winner is
    /// confirmed and every other candidate is rejected.
    pub open spec fn decided_for(self, ids: Seq<u128>, winner: u128) -> bool {
        &&& self.contains(winner)
        &&& self.status_of(winner) == TransactionStatus::Confirmed
        &&& forall|k: int|
            0 <= k < ids.len() && ids[k] != winner ==> self.contains(#[trigger] ids[k])
                && self.status_of(ids[k]) == TransactionStatus::Rejected
    }

    /// Whether a conflict is decided in favour of one of its candidates.
    pub open spec fn decided(self, ids: Seq<u128>) -> bool {
        exists|w: int| 0 <= w < ids.len() && self.decided_for(ids, #[trigger] ids[w])
    }

    /// A settlement decides the conflict.
    pub proof fn lemma_settlement_decides(self, next: GraphView, ids: Seq<u128>, winner: u128)
        requires
            self.ids_unique(),
            next.ids_unique(),
            self.can_settle(ids, winner),
            self.settles_to(next, ids, winner),
        ensures
            next.decided_for(ids, winner),
    {
        self.lemma_settlement_exclusive(next, ids, winner, winner);
        assert forall|k: int| 0 <= k < ids.len() && ids[k] != winner implies next.contains(
            #[trigger] ids[k],
        ) && next.status_of(ids[k]) == TransactionStatus::Rejected by {
            assert(self.contains(ids[k]));
            self.lemma_settlement_exclusive(next, ids, winner, ids[k]);
        }
    }

    /// A decision stands: whatever happens to the graph afterwards, the
    /// winner stays confirmed and the others stay rejected.
    pub proof fn lemma_decision_stands(self, later: GraphView, ids: Seq<u128>, winner: u128)
        requires
            self.ids_unique(),
            later.ids_unique(),
            self.advances_to(later),
            self.decided_for(ids, winner),
        ensures
            later.decided_for(ids, winner),
    {
        self.lemma_advances_keeps(later, winner);
        assert forall|k: int| 0 <= k < ids.len() && ids[k] != winner implies later.contains(
            #[trigger] ids[k],
        ) && later.status_of(ids[k]) == TransactionStatus::Rejected by {
            self.lemma_advances_keeps(later, ids[k]);
        }
    }

    /// In a decided conflict exactly one candidate is confirmed, and every
    /// other candidate is rejected.
    pub proof fn lemma_decided_exclusive(self, ids: Seq<u128>, winner: u128, k: int)
        requires
            self.decided_for(ids, winner),
            0 <= k < ids.len(),
        ensures
            self.status_of(ids[k]) == TransactionStatus::Confirmed <==> ids[k] == winner,
            ids[k] != winner ==> self.status_of(ids[k]) == TransactionStatus::Rejected,
    {
    }
}

impl GraphView {
    /// Whether no two different candidates of a conflict are both stored
    /// and confirmed.
    pub open spec fn exclusive(self, ids: Seq<u128>) -> bool {
        forall|a: int, b: int|
            0 <= a < ids.len() && 0 <= b < ids.len() && ids[a] != ids[b] && self.contains(ids[a])
                && self.contains(ids[b]) ==> !(self.status_of(ids[a])
                == TransactionStatus::Confirmed && self.status_of(ids[b])
                == TransactionStatus::Confirmed)
    }

    /// Whether no conflict of a list, resolved or not, has two different
    /// candidates that are both stored and confirmed.
    pub open spec fn all_exclusive(self, conflicts: Seq<ConflictView>) -> bool {
        forall|k: int|
            0 <= k < conflicts.len() ==> self.exclusive((#[trigger] conflicts[k]).transaction_ids)
    }

    /// A settlement of one conflict of a list of conflicts that share no
    /// candidate leaves no conflict of the list with two different confirmed
    /// candidates, if none had two before.
    pub proof fn lemma_settlement_keeps_exclusive(
        self,
        next: GraphView,
        conflicts: Seq<ConflictView>,
        k: int,
        winner: u128,
    )
        requires
            self.ids_unique(),
            next.ids_unique(),
            apart(conflicts),
            self.all_exclusive(conflicts),
            0 <= k < conflicts.len(),
            self.can_settle(conflicts[k].transaction_ids, winner),
            conflicts[k].transaction_ids.contains(winner),
            self.settles_to(next, conflicts[k].transaction_ids, winner),
        ensures
            next.all_exclusive(conflicts),
    {
        let settled = conflicts[k].transaction_ids;
        assert forall|j: int| 0 <= j < conflicts.len() implies next.exclusive(
            (#[trigger] conflicts[j]).transaction_ids,
        ) by {
            let ids = conflicts[j].transaction_ids;
            assert forall|a: int, b: int|
                0 <= a < ids.len() && 0 <= b < ids.len() && ids[a] != ids[b] && next.contains(
                    ids[a],
                ) && next.contains(ids[b]) implies !(next.status_of(ids[a])
                == TransactionStatus::Confirmed && next.status_of(ids[b])
                == TransactionStatus::Confirmed) by {
                if j == k {
                    self.lemma_settlement_decides(next, ids, winner);
                    next.lemma_decided_exclusive(ids, winner, a);
                    next.lemma_decided_exclusive(ids, winner, b);
                } else {
                    self.lemma_settlement_spares(next, settled, winner, ids[a]);
                    self.lemma_settlement_spares(next, settled, winner, ids[b]);
                    assert(ids.contains(ids[a]));
                    assert(ids.contains(ids[b]));
                    assert(self.exclusive(ids));
                }
            }
        }
    }

    /// A settlement spares what is no candidate: a transaction that is
    /// stored after it was stored before it, and has kept its status unless
    /// it is a candidate of the settled conflict.
    pub proof fn lemma_settlement_spares(
        self,
        next: GraphView,
        ids: Seq<u128>,
        winner: u128,
        id: u128,
    )
        requires
            self.ids_unique(),
            next.ids_unique(),
            self.settles_to(next, ids, winner),
            next.contains(id),
        ensures
            self.contains(id),
            id != winner && !ids.contains(id) ==> next.status_of(id) == self.status_of(id),
    {
        next.lemma_contains(id);
        let i = next.index_of(id);
        assert(self.nodes[i].transaction.status.reaches(next.nodes[i].transaction.status));
        assert(self.id_at(i) == id);
        self.lemma_index(i);
    }
}

/// Whether the conflicts of a list share no candidate: no transaction is a
/// candidate of two of them.
pub open spec fn apart(conflicts: Seq<ConflictView>) -> bool {
    forall|j: int, k: int, id: u128|
        #![trigger conflicts[j].transaction_ids.contains(id), conflicts[k].transaction_ids.contains(id)]
        0 <= j < conflicts.len() && 0 <= k < conflicts.len() && j != k
            && conflicts[j].transaction_ids.contains(id) ==> !conflicts[k].transaction_ids.contains(
            id,
        )
}

/// Number of conflicts among the first `n` that were unresolved in `before`
/// and are resolved in `after`.
pub open spec fn newly_resolved(before: Seq<ConflictView>, after: Seq<ConflictView>, n: int) -> nat
    decreases n,
{
    if n <= 0 {
        0
    } else if !before[n - 1].resolved && after[n - 1].resolved {
        newly_resolved(before, after, n - 1) + 1
    } else {
        newly_resolved(before, after, n - 1)
    }
}

/// Whether `after` is a list of conflicts after an attempt to resolve those
/// of `before`: the same conflicts, of which some more may be resolved.
pub open spec fn same_conflicts(before: Seq<ConflictView>, after: Seq<ConflictView>) -> bool {
    &&& after.len() == before.len()
    &&& forall|k: int|
        0 <= k < before.len() ==> (#[trigger] after[k]).transaction_ids
            == before[k].transaction_ids && after[k].conflict_type == before[k].conflict_type
            && after[k].detected_at == before[k].detected_at && (before[k].resolved
            ==> after[k].resolved)
}

/// Whether a transaction is a candidate of a conflict that is unresolved in
/// `before` and resolved in `after`.
pub open spec fn settled_candidate(
    before: Seq<ConflictView>,
    after: Seq<ConflictView>,
    id: u128,
) -> bool {
    exists|k: int|
        0 <= k < before.len() && !(#[trigger] before[k]).resolved && after[k].resolved
            && before[k].transaction_ids.contains(id)
}

impl GraphView {
    /// Whether `next` holds the nodes of this graph, each as it was but for
    /// the candidates of the conflicts that are unresolved in `before` and
    /// resolved in `after`.
    pub open spec fn changes_settled_only(
        self,
        next: GraphView,
        before: Seq<ConflictView>,
        after: Seq<ConflictView>,
    ) -> bool {
        &&& next.nodes.len() == self.nodes.len()
        &&& forall|i: int|
            0 <= i < self.nodes.len() && !settled_candidate(before, after, self.id_at(i))
                ==> #[trigger] next.nodes[i] == self.nodes[i]
    }
}

/// The polls on the conflicts of a list, followed by the poll on one more
/// conflict, are the polls on the longer list.
pub proof fn lemma_pass_on(
    start: GraphView,
    conflicts: Seq<ConflictView>,
    votes: Seq<(u128, bool)>,
    poll: Seq<(u128, bool)>,
    rounds: u64,
    threshold: u64,
    now: u64,
)
    requires
        conflicts.len() > 0,
        poll.len() == poll_size(conflicts.last(), rounds),
    ensures
        pass_outcome(start, conflicts, votes + poll, rounds, threshold, now) == ({
            let earlier = pass_outcome(
                start,
                conflicts.drop_last(),
                votes,
                rounds,
                threshold,
                now,
            );
            let last = vote_outcome(earlier.0, conflicts.last(), poll, rounds, threshold, now);
            (last.0, earlier.1.push(last.1))
        }),
        is_pass(votes + poll, conflicts, rounds) == (is_pass(
            votes,
            conflicts.drop_last(),
            rounds,
        ) && (conflicts.last().resolved || is_poll(
            poll,
            conflicts.last().transaction_ids,
            rounds as nat,
        ))),
{
    let all = votes + poll;
    assert(all.subrange(0, all.len() - poll.len()) =~= votes);
    assert(all.subrange(all.len() - poll.len(), all.len() as int) =~= poll);
}

/// Holds a poll on every unresolved conflict of a list, in order, and
/// settles those in which a candidate wins: what `pass_outcome` gives for
/// the votes that the strategy casts.
///
/// Whatever the votes are: the conflicts stay the same but for those that
/// are resolved now; the answer counts them; each of them is decided in the
/// graph, with one candidate confirmed and every other rejected; every
/// transaction that is a candidate of none of them stays as it was; the
/// graph has only advanced; and where the conflicts share no candidate, and
/// none has two different confirmed candidates, none has two afterwards.
pub fn resolve_all<V: VotingStrategy>(
    ledger: &mut AdvancedDAGLedger,
    conflicts: &mut Vec<Conflict>,
    strategy: &mut V,
    rounds: u64,
    threshold: u64,
    now: u64,
) -> (count: usize)
    requires
        old(ledger).wf(),
    ensures
        final(ledger).wf(),
        final(ledger).config() == old(ledger).config(),
        final(ledger).metrics() == old(ledger).metrics(),
        old(ledger)@.graph.advances_to(final(ledger)@.graph),
        same_conflicts(conflict_views(old(conflicts)@), conflict_views(final(conflicts)@)),
        count == newly_resolved(
            conflict_views(old(conflicts)@),
            conflict_views(final(conflicts)@),
            old(conflicts)@.len() as int,
        ),
        count == 0 ==> final(ledger)@ == old(ledger)@ && conflict_views(final(conflicts)@)
            == conflict_views(old(conflicts)@),
        forall|k: int|
            0 <= k < old(conflicts)@.len() && !(#[trigger] conflict_views(
                old(conflicts)@,
            )[k]).resolved && conflict_views(final(conflicts)@)[k].resolved
                ==> final(ledger)@.graph.decided(conflict_views(old(conflicts)@)[k].transaction_ids),
        old(ledger)@.graph.changes_settled_only(
            final(ledger)@.graph,
            conflict_views(old(conflicts)@),
            conflict_views(final(conflicts)@),
        ),
        apart(conflict_views(old(conflicts)@)) && old(ledger)@.graph.all_exclusive(
            conflict_views(old(conflicts)@),
        ) ==> final(ledger)@.graph.all_exclusive(conflict_views(old(conflicts)@)),
        continues(old(strategy).cast(), final(strategy).cast()),
        is_pass(
            votes_since(old(strategy).cast(), final(strategy).cast()),
            conflict_views(old(conflicts)@),
            rounds,
        ),
        (final(ledger)@.graph, conflict_views(final(conflicts)@)) == pass_outcome(
            old(ledger)@.graph,
            conflict_views(old(conflicts)@),
            votes_since(old(strategy).cast(), final(strategy).cast()),
            rounds,
            threshold,
            now,
        ),
{
    let ghost opening = strategy.cast();
    proof {
        assert(conflict_views(conflicts@).subrange(0, 0) =~= Seq::<ConflictView>::empty());
    }
    let ghost start = ledger@.graph;
    let ghost before = conflict_views(conflicts@);
    let mut count: usize = 0;
    let mut k: usize = 0;
    proof {
        start.lemma_advances(start, start);
    }
    while k < conflicts.len()
        invariant
            k <= conflicts@.len(),
            conflicts@.len() == before.len(),
            ledger.wf(),
            ledger.config() == old(ledger).config(),
            ledger.metrics() == old(ledger).metrics(),
            start == old(ledger)@.graph,
            start.ids_unique(),
            start.advances_to(ledger@.graph),
            same_conflicts(before, conflict_views(conflicts@)),
            forall|m: int| k <= m < before.len() ==> conflict_views(conflicts@)[m] == before[m],
            count == newly_resolved(before, conflict_views(conflicts@), k as int),
            count <= k,
            count == 0 ==> ledger@ == old(ledger)@ && forall|m: int|
                0 <= m < before.len() ==> conflict_views(conflicts@)[m] == before[m],
            forall|m: int|
                0 <= m < k && !(#[trigger] before[m]).resolved && conflict_views(
                    conflicts@,
                )[m].resolved ==> ledger@.graph.decided(before[m].transaction_ids),
            start.changes_settled_only(ledger@.graph, before, conflict_views(conflicts@)),
            apart(before) && start.all_exclusive(before) ==> ledger@.graph.all_exclusive(before),
            continues(opening, strategy.cast()),
            is_pass(votes_since(opening, strategy.cast()), before.subrange(0, k as int), rounds),
            (ledger@.graph, conflict_views(conflicts@).subrange(0, k as int)) == pass_outcome(
                start,
                before.subrange(0, k as int),
                votes_since(opening, strategy.cast()),
                rounds,
                threshold,
                now,
            ),
        decreases conflicts@.len() - k,
    {
        let ghost graph = ledger@.graph;
        let ghost views = conflict_views(conflicts@);
        let ghost account = strategy.cast();
        let ghost votes = votes_since(opening, account);
        assert(views[k as int] == conflicts@[k as int]@);
        if !conflicts[k].resolved {
            let mut conflict = conflicts[k].clone();
            let resolved = resolve_conflict_fpc(
                ledger,
                &mut conflict,
                strategy,
                rounds,
                threshold,
                now,
            );
            let ghost next = ledger@.graph;
            let ghost settled = conflict@;
            let is_resolved = match resolved {
                Ok(true) => true,
                _ => false,
            };
            if is_resolved {
                conflicts.set(k, conflict);
                count += 1;
            }
            proof {
                start.lemma_advances(graph, next);
                let after = conflict_views(conflicts@);
                assert forall|m: int| 0 <= m < before.len() implies (#[trigger] after[m])
                    == (if m == k && is_resolved {
                    settled
                } else {
                    views[m]
                }) by {}
                assert(same_conflicts(before, after));
                lemma_newly_resolved_prefix(before, views, after, k as int);
                assert forall|m: int|
                    0 <= m < k + 1 && !(#[trigger] before[m]).resolved
                        && after[m].resolved implies next.decided(before[m].transaction_ids) by {
                    if m < k {
                        assert(graph.decided(before[m].transaction_ids));
                        let w = choose|w: int|
                            0 <= w < before[m].transaction_ids.len() && graph.decided_for(
                                before[m].transaction_ids,
                                #[trigger] before[m].transaction_ids[w],
                            );
                        graph.lemma_decision_stands(
                            next,
                            before[m].transaction_ids,
                            before[m].transaction_ids[w],
                        );
                    } else {
                        let ids = before[m].transaction_ids;
                        let w = choose|w: int|
                            0 <= w < ids.len() && graph.can_settle(ids, #[trigger] ids[w])
                                && graph.settles_to(next, ids, ids[w]);
                        graph.lemma_settlement_decides(next, ids, ids[w]);
                    }
                }
                if count == 0 {
                    assert(after =~= before);
                }
                if is_resolved && apart(before) && start.all_exclusive(before) {
                    let ids = before[k as int].transaction_ids;
                    let w = choose|w: int|
                        0 <= w < ids.len() && graph.can_settle(ids, #[trigger] ids[w])
                            && graph.settles_to(next, ids, ids[w]);
                    graph.lemma_settlement_keeps_exclusive(next, before, k as int, ids[w]);
                }
                let poll = votes_since(account, strategy.cast());
                let b1 = before.subrange(0, k + 1);
                let a1 = after.subrange(0, k + 1);
                assert(b1.last() == before[k as int]);
                assert(b1.drop_last() =~= before.subrange(0, k as int));
                assert(votes_since(opening, strategy.cast()) =~= votes + poll);
                lemma_pass_on(start, b1, votes, poll, rounds, threshold, now);
                assert(a1 =~= views.subrange(0, k as int).push(after[k as int]));
                assert forall|i: int|
                    0 <= i < start.nodes.len() && !settled_candidate(
                        before,
                        after,
                        start.id_at(i),
                    ) implies #[trigger] next.nodes[i] == start.nodes[i] by {
                    let id = start.id_at(i);
                    if settled_candidate(before, views, id) {
                        let m = choose|m: int|
                            0 <= m < before.len() && !(#[trigger] before[m]).resolved
                                && views[m].resolved && before[m].transaction_ids.contains(id);
                        assert(after[m] == views[m]);
                        assert(false);
                    }
                    assert(graph.nodes[i] == start.nodes[i]);
                    if is_resolved {
                        let ids = before[k as int].transaction_ids;
                        assert(after[k as int].resolved);
                        assert(!ids.contains(id));
                        let w = choose|w: int|
                            0 <= w < ids.len() && graph.can_settle(ids, #[trigger] ids[w])
                                && graph.settles_to(next, ids, ids[w]);
                        assert(ids.contains(ids[w]));
                        assert(graph.id_at(i) == id);
                    }
                }
            }
        } else {
            proof {
                lemma_newly_resolved_prefix(before, views, views, k as int);
                let poll = Seq::<(u128, bool)>::empty();
                let b1 = before.subrange(0, k + 1);
                let a1 = views.subrange(0, k + 1);
                assert(b1.last() == before[k as int]);
                assert(b1.drop_last() =~= before.subrange(0, k as int));
                assert(votes + poll =~= votes);
                lemma_pass_on(start, b1, votes, poll, rounds, threshold, now);
                assert(a1 =~= views.subrange(0, k as int).push(views[k as int]));
            }
        }
        k += 1;
    }
    proof {
        if count == 0 {
            assert(conflict_views(conflicts@) =~= before);
        }
        let after = conflict_views(conflicts@);
        assert(before.subrange(0, before.len() as int) =~= before);
        assert(after.subrange(0, after.len() as int) =~= after);
    }
    count
}

/// Conflicts that agree on the first `n` places have the same number of
/// newly resolved conflicts among them.
proof fn lemma_newly_resolved_prefix(
    before: Seq<ConflictView>,
    first: Seq<ConflictView>,
    second: Seq<ConflictView>,
    n: int,
)
    requires
        0 <= n <= before.len(),
        first.len() == before.len(),
        second.len() == before.len(),
        forall|m: int| 0 <= m < n ==> first[m] == second[m],
    ensures
        newly_resolved(before, first, n) == newly_resolved(before, second, n),
    decreases n,
{
    if n > 0 {
        lemma_newly_resolved_prefix(before, first, second, n - 1);
    }
}

} // verus!
