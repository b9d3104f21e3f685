//! Laws of the ledger and of consensus: what holds of every graph, every
//! conflict and every engine, proved from the contracts of the operations.

use vstd::prelude::*;
use crate::consensus::conflict::{ConflictType, ConflictView};
use crate::consensus::registry::{lists_validators, order_with, ValidatorStake};
use crate::consensus::resolver::{
    favourable, has_winner, is_winner, lemma_favourable_bound, lemma_winner_unique,
    reaches_threshold, same_conflicts, settled_candidate, tallies_of, vote_outcome, winner_of,
};
use crate::crypto::PublicKey;
use crate::consensus::engine::{ConsensusEngine, EngineView, RoundRefusal, StartRefusal};
use crate::consensus::round::{lemma_unresolved_complete, PrivacyProofVerifier};
use crate::error::SDUPIError;
use crate::consensus::resolver::{resolution, Resolution};
use crate::dag::model::{Admission, GraphView, LedgerView};
use crate::transaction::{TransactionStatus, TransactionView};

verus! {

/// The tip cache of a well-formed ledger never holds a confirmed
/// transaction, holds stored transactions only, and never holds more tips
/// than the configuration allows.
pub proof fn law_tips_unconfirmed_and_capped(ledger: LedgerView)
    requires
        ledger.wf(),
    ensures
        ledger.tips.len() <= ledger.graph.max_tips,
        forall|k: int|
            0 <= k < ledger.tips.len() ==> ledger.graph.contains(#[trigger] ledger.tips[k])
                && ledger.graph.status_of(ledger.tips[k]) != TransactionStatus::Confirmed,
        forall|a: int, b: int|
            0 <= a < b < ledger.tips.len() ==> ledger.tips[a] != ledger.tips[b],
{
    assert forall|k: int| 0 <= k < ledger.tips.len() implies ledger.graph.contains(
        #[trigger] ledger.tips[k],
    ) && ledger.graph.status_of(ledger.tips[k]) != TransactionStatus::Confirmed by {
        assert(ledger.graph.is_tip(ledger.tips[k]));
    }
    assert forall|a: int, b: int| 0 <= a < b < ledger.tips.len() implies ledger.tips[a]
        != ledger.tips[b] by {
        assert(ledger.graph.ranks_before(ledger.tips[a], ledger.tips[b]));
    }
}

/// Every tip of the graph that is missing from the tip cache is outranked by
/// all the cached tips, and is missing only because the cache is full.
pub proof fn law_tips_complete(ledger: LedgerView, id: u128)
    requires
        ledger.wf(),
        ledger.graph.is_tip(id),
        !ledger.tips.contains(id),
    ensures
        ledger.tips.len() == ledger.graph.max_tips,
        forall|k: int|
            0 <= k < ledger.tips.len() ==> ledger.graph.ranks_before(#[trigger] ledger.tips[k], id),
{
    ledger.graph.lemma_contains(id);
    let i = ledger.graph.index_of(id);
    assert(ledger.graph.tip_at(i));
    assert(ledger.graph.outranked(ledger.tips, ledger.graph.id_at(i)));
}

/// A transaction with a valid structure and resolving parents whose
/// identifier belongs to a stored transaction that is no longer pending is
/// answered with a double-spend conflict, and does not enter.
pub proof fn law_settled_identifier_is_double_spend(graph: GraphView, t: TransactionView, now: u64)
    requires
        t.structure_ok(),
        !graph.missing_parent(t),
        graph.contains(t.id),
        graph.status_of(t.id) != TransactionStatus::Pending,
    ensures
        graph.admission(t) == Admission::DoubleSpend,
        graph.detect(t, now) matches Some(c) && c.conflict_type == ConflictType::DoubleSpend
            && c.transaction_ids == seq![t.id, t.id] && !c.resolved && c.detected_at == now,
{
}

/// A transaction with a valid structure that names a parent that is not
/// stored is answered with an invalid-parent conflict of the transaction
/// alone, and does not enter.
pub proof fn law_absent_parent_is_invalid_parent(
    graph: GraphView,
    t: TransactionView,
    parent: u128,
    now: u64,
)
    requires
        t.structure_ok(),
        t.has_parent(parent),
        !graph.contains(parent),
    ensures
        graph.admission(t) == Admission::MissingParent,
        graph.detect(t, now) matches Some(c) && c.conflict_type == ConflictType::InvalidParent
            && c.transaction_ids == seq![t.id] && !c.resolved && c.detected_at == now,
{
}

/// Detection reads the graph and decides by two questions only: a conflict
/// is found exactly when a parent is missing or the identifier is taken by a
/// transaction that is no longer pending.
pub proof fn law_detection(graph: GraphView, t: TransactionView, now: u64)
    ensures
        graph.detect(t, now) is Some <==> graph.missing_parent(t) || graph.collides(t),
{
}

/// When a conflict over two different transactions is resolved, exactly one
/// of the two is confirmed and the other is rejected.
pub proof fn law_resolved_pair(
    before: GraphView,
    after: GraphView,
    conflict: ConflictView,
    tallies: Seq<u64>,
    rounds: u64,
    threshold: u64,
    a: u128,
    b: u128,
)
    requires
        before.ids_unique(),
        after.ids_unique(),
        conflict.transaction_ids == seq![a, b],
        a != b,
        resolution(before, conflict, tallies, rounds, threshold) matches Resolution::Settled(w)
            && before.settles_to(after, conflict.transaction_ids, conflict.transaction_ids[w]),
    ensures
        (after.status_of(a) == TransactionStatus::Confirmed && after.status_of(b)
            == TransactionStatus::Rejected) || (after.status_of(a)
            == TransactionStatus::Rejected && after.status_of(b)
            == TransactionStatus::Confirmed),
{
    let ids = conflict.transaction_ids;
    let w = crate::consensus::resolver::winner_of(tallies, rounds, threshold);
    let winner = ids[w];
    assert(before.can_settle(ids, winner));
    assert(ids[0] == a && ids[1] == b);
    before.lemma_settlement_decides(after, ids, winner);
    after.lemma_decided_exclusive(ids, winner, 0);
    after.lemma_decided_exclusive(ids, winner, 1);
}

/// In a decided conflict one candidate is confirmed and all the others are
/// rejected, and this stays so whatever happens to the graph afterwards.
pub proof fn law_decision_is_final(
    graph: GraphView,
    later: GraphView,
    ids: Seq<u128>,
    winner: u128,
    k: int,
)
    requires
        graph.ids_unique(),
        later.ids_unique(),
        graph.decided_for(ids, winner),
        graph.advances_to(later),
        0 <= k < ids.len(),
    ensures
        later.status_of(ids[k]) == TransactionStatus::Confirmed <==> ids[k] == winner,
        ids[k] != winner ==> later.status_of(ids[k]) == TransactionStatus::Rejected,
{
    graph.lemma_decision_stands(later, ids, winner);
    later.lemma_decided_exclusive(ids, winner, k);
}

/// Resolved conflicts are decided conflicts: when every conflict that was
/// resolved before a pass of resolution was decided, and every conflict
/// that the pass resolves is decided after it, then every resolved conflict
/// is decided after the pass, and no two different candidates of it are
/// both confirmed.
pub proof fn law_resolved_conflicts_decided(
    before: GraphView,
    after: GraphView,
    conflicts: Seq<ConflictView>,
    resolved: Seq<ConflictView>,
    k: int,
    a: int,
    b: int,
)
    requires
        before.ids_unique(),
        after.ids_unique(),
        before.advances_to(after),
        same_conflicts(conflicts, resolved),
        forall|m: int|
            0 <= m < conflicts.len() && (#[trigger] conflicts[m]).resolved ==> before.decided(
                conflicts[m].transaction_ids,
            ),
        forall|m: int|
            0 <= m < conflicts.len() && !(#[trigger] conflicts[m]).resolved && resolved[m].resolved
                ==> after.decided(conflicts[m].transaction_ids),
        0 <= k < resolved.len(),
        resolved[k].resolved,
        0 <= a < resolved[k].transaction_ids.len(),
        0 <= b < resolved[k].transaction_ids.len(),
        resolved[k].transaction_ids[a] != resolved[k].transaction_ids[b],
    ensures
        after.decided(resolved[k].transaction_ids),
        !(after.status_of(resolved[k].transaction_ids[a]) == TransactionStatus::Confirmed
            && after.status_of(resolved[k].transaction_ids[b]) == TransactionStatus::Confirmed),
        after.status_of(resolved[k].transaction_ids[a]) == TransactionStatus::Rejected
            || after.status_of(resolved[k].transaction_ids[b]) == TransactionStatus::Rejected,
{
    let ids = conflicts[k].transaction_ids;
    assert(resolved[k].transaction_ids == ids);
    if conflicts[k].resolved {
        let w = choose|w: int| 0 <= w < ids.len() && before.decided_for(ids, #[trigger] ids[w]);
        before.lemma_decision_stands(after, ids, ids[w]);
    }
    let w = choose|w: int| 0 <= w < ids.len() && after.decided_for(ids, #[trigger] ids[w]);
    after.lemma_decided_exclusive(ids, ids[w], a);
    after.lemma_decided_exclusive(ids, ids[w], b);
}

/// The winner of a poll in terms of the votes cast: the candidate at place
/// `w` wins exactly when there is at least one round, the rounds in which
/// the vote on it was in its favour make the share of the threshold, in
/// hundredths, of all the rounds, and the same holds of no candidate before
/// it.
pub proof fn law_winner_by_the_votes(
    poll: Seq<(u128, bool)>,
    n: nat,
    rounds: u64,
    threshold: u64,
    w: int,
)
    ensures
        is_winner(tallies_of(poll, n, rounds), rounds, threshold, w) <==> (0 <= w < n && rounds > 0
            && favourable(poll, n, w, rounds as int) * 100 >= threshold * rounds && forall|k: int|
            0 <= k < w ==> #[trigger] favourable(poll, n, k, rounds as int) * 100 < threshold
                * rounds),
{
    let tallies = tallies_of(poll, n, rounds);
    assert forall|k: int| 0 <= k < n implies #[trigger] tallies[k] == favourable(
        poll,
        n,
        k,
        rounds as int,
    ) by {
        lemma_favourable_bound(poll, n, k, rounds as int);
    }
    if 0 <= w < n {
        assert(tallies[w] == favourable(poll, n, w, rounds as int));
        if is_winner(tallies, rounds, threshold, w) {
            assert forall|k: int| 0 <= k < w implies #[trigger] favourable(
                poll,
                n,
                k,
                rounds as int,
            ) * 100 < threshold * rounds by {
                assert(!reaches_threshold(tallies[k], rounds, threshold));
            }
        }
        if rounds > 0 && favourable(poll, n, w, rounds as int) * 100 >= threshold * rounds
            && forall|k: int|
            0 <= k < w ==> #[trigger] favourable(poll, n, k, rounds as int) * 100 < threshold
                * rounds {
            assert forall|k: int| 0 <= k < w implies !reaches_threshold(
                #[trigger] tallies[k],
                rounds,
                threshold,
            ) by {
                assert(favourable(poll, n, k, rounds as int) * 100 < threshold * rounds);
            }
        }
    }
}

/// Where no vote decides, the poll on an unresolved conflict is decided
/// all the same. Without rounds, and without candidates, nobody wins and
/// nothing changes. With a threshold of nothing and at least one round the
/// first candidate wins whatever the votes are, and the conflict is settled
/// in its favour exactly when the graph allows it.
pub proof fn law_poll_where_no_vote_decides(
    graph: GraphView,
    conflict: ConflictView,
    poll: Seq<(u128, bool)>,
    rounds: u64,
    threshold: u64,
    now: u64,
)
    requires
        !conflict.resolved,
    ensures
        rounds == 0 || conflict.transaction_ids.len() == 0 ==> vote_outcome(
            graph,
            conflict,
            poll,
            rounds,
            threshold,
            now,
        ) == (graph, conflict),
        rounds > 0 && threshold == 0 && conflict.transaction_ids.len() > 0 ==> vote_outcome(
            graph,
            conflict,
            poll,
            rounds,
            threshold,
            now,
        ) == (if graph.can_settle(conflict.transaction_ids, conflict.transaction_ids[0]) {
            (
                graph.settled(conflict.transaction_ids, conflict.transaction_ids[0], now),
                ConflictView { resolved: true, ..conflict },
            )
        } else {
            (graph, conflict)
        }),
{
    let ids = conflict.transaction_ids;
    let tallies = tallies_of(poll, ids.len(), rounds);
    if rounds == 0 || ids.len() == 0 {
        if has_winner(tallies, rounds, threshold) {
            let w = winner_of(tallies, rounds, threshold);
            assert(is_winner(tallies, rounds, threshold, w));
        }
    } else if threshold == 0 {
        assert(reaches_threshold(tallies[0], rounds, threshold));
        assert(is_winner(tallies, rounds, threshold, 0));
        lemma_winner_unique(tallies, rounds, threshold, 0, winner_of(tallies, rounds, threshold));
    }
}

/// No conflict that an engine holds, resolved or not, names two different
/// transactions: detection gives conflicts of one transaction with itself
/// or with the graph. So no conflict of an engine ever has two different
/// candidates that are both confirmed.
pub proof fn law_engine_conflicts_never_two_confirmed(
    engine: ConsensusEngine,
    k: int,
    a: int,
    b: int,
)
    requires
        engine.wf(),
        0 <= k < engine@.open_conflicts().len(),
        0 <= a < engine@.open_conflicts()[k].transaction_ids.len(),
        0 <= b < engine@.open_conflicts()[k].transaction_ids.len(),
    ensures
        engine@.open_conflicts()[k].transaction_ids[a]
            == engine@.open_conflicts()[k].transaction_ids[b],
        engine@.ledger.graph.all_exclusive(engine@.open_conflicts()),
{
    let conflicts = engine@.open_conflicts();
    assert(conflicts[k].single());
    assert forall|j: int| 0 <= j < conflicts.len() implies engine@.ledger.graph.exclusive(
        (#[trigger] conflicts[j]).transaction_ids,
    ) by {
        assert(conflicts[j].single());
    }
}

/// A pass of resolution leaves alone what it does not settle: a stored
/// transaction that is a candidate of none of the conflicts that the pass
/// resolves has the status after the pass that it had before.
pub proof fn law_unsettled_candidates_keep_status(
    before: GraphView,
    after: GraphView,
    conflicts: Seq<ConflictView>,
    resolved: Seq<ConflictView>,
    id: u128,
)
    requires
        before.ids_unique(),
        after.ids_unique(),
        before.advances_to(after),
        before.changes_settled_only(after, conflicts, resolved),
        before.contains(id),
        !settled_candidate(conflicts, resolved, id),
    ensures
        after.contains(id),
        after.node(id) == before.node(id),
        after.status_of(id) == before.status_of(id),
{
    before.lemma_advances_keeps(after, id);
    before.lemma_contains(id);
    let i = before.index_of(id);
    assert(after.nodes[i] == before.nodes[i]);
}

/// In every engine that keeps its invariant the order of registration names
/// the registered validators, once each.
pub proof fn law_validators_are_listed_once(engine: ConsensusEngine)
    requires
        engine.wf(),
    ensures
        lists_validators(engine@.validators, engine@.validator_order),
        engine@.stakes().len() == engine@.validator_order.len(),
{
    engine.lemma_validators_listed();
}

/// A validator that registers for the first time raises the number of
/// validators by one and the total stake by its stake, held at the largest
/// 64-bit number. One that registers again leaves the number as it is.
pub proof fn law_registration_totals(before: EngineView, key: PublicKey, stake: u64)
    requires
        lists_validators(before.validators, before.validator_order),
    ensures
        ({
            let after = EngineView {
                validators: before.validators.insert(key@, ValidatorStake::fresh(key, stake)),
                validator_order: order_with(before.validators, before.validator_order, key@),
                ..before
            };
            &&& lists_validators(after.validators, after.validator_order)
            &&& after.validators[key@].stake_amount == stake
            &&& before.validators.contains_key(key@) ==> after.validator_order.len()
                == before.validator_order.len()
            &&& !before.validators.contains_key(key@) ==> after.validator_order.len()
                == before.validator_order.len() + 1 && after.total_stake() == (if before.total_stake()
                + stake > u64::MAX {
                u64::MAX as int
            } else {
                before.total_stake() + stake
            })
        }),
{
    let after = EngineView {
        validators: before.validators.insert(key@, ValidatorStake::fresh(key, stake)),
        validator_order: order_with(before.validators, before.validator_order, key@),
        ..before
    };
    let old_order = before.validator_order;
    let new_order = after.validator_order;
    if before.validators.contains_key(key@) {
        assert forall|x: Seq<u8>| after.validators.contains_key(x) <==> new_order.contains(
            x,
        ) by {}
    } else {
        assert(!old_order.contains(key@));
        assert forall|i: int, j: int|
            0 <= i < new_order.len() && 0 <= j < new_order.len() && i != j implies new_order[i]
            != new_order[j] by {
            if i < old_order.len() {
                assert(old_order.contains(old_order[i]));
            }
            if j < old_order.len() {
                assert(old_order.contains(old_order[j]));
            }
        }
        assert forall|x: Seq<u8>| after.validators.contains_key(x) <==> new_order.contains(
            x,
        ) by {
            if new_order.contains(x) {
                let i = choose|i: int| 0 <= i < new_order.len() && new_order[i] == x;
                if i < old_order.len() {
                    assert(old_order.contains(old_order[i]));
                }
            }
            if after.validators.contains_key(x) {
                if x == key@ {
                    assert(new_order[old_order.len() as int] == x);
                } else {
                    assert(before.validators.contains_key(x));
                    assert(old_order.contains(x));
                    let i = choose|i: int| 0 <= i < old_order.len() && old_order[i] == x;
                    assert(new_order[i] == x);
                }
            }
        }
        assert(after.stakes().drop_last() =~= before.stakes()) by {
            assert forall|i: int| 0 <= i < old_order.len() implies after.stakes()[i]
                == before.stakes()[i] by {
                assert(old_order.contains(old_order[i]));
            }
        }
        assert(after.stakes().last().stake_amount == stake);
    }
}

/// While a round is open and its window has not ended, no round can start.
pub proof fn law_no_overlapping_rounds(engine: ConsensusEngine, now: u64)
    requires
        engine@.round matches Some(round) && now < round.end_time,
    ensures
        engine.start_refusal(now) == Some(StartRefusal::RoundActive),
{
}

/// From the end of the open round's window on, and when no round is open, a
/// round can start, unless the round counter or the clock is at its largest
/// value.
pub proof fn law_round_can_start(engine: ConsensusEngine, now: u64)
    requires
        engine@.round matches Some(round) ==> now >= round.end_time,
        engine@.round_counter < u64::MAX,
        now + engine.config().round_duration <= u64::MAX,
    ensures
        engine.start_refusal(now) is None,
{
}

/// From the end of the open round's window on, validation is refused.
pub proof fn law_validation_ends_with_the_window(engine: ConsensusEngine, now: u64)
    requires
        engine@.round matches Some(round) && now >= round.end_time,
    ensures
        engine.round_refusal(now) == Some(RoundRefusal::Ended),
{
}

/// A start while a round is open and its window has not ended is refused
/// with a consensus error and changes nothing. A start when no round is
/// open, or from the end of the open round's window on, succeeds and raises
/// the round counter by exactly one, unless the counter or the clock is at
/// its largest value.
pub proof fn law_start_counts_up_by_one(
    before: EngineView,
    after: EngineView,
    result: Result<(), SDUPIError>,
    now: u64,
)
    requires
        before.starts_round(after, result, now),
    ensures
        before.round_active(now) ==> (result matches Err(SDUPIError::Consensus(_))) && after
            == before,
        !before.round_active(now) && before.round_counter < u64::MAX && now
            + before.config.round_duration <= u64::MAX ==> result is Ok && after.round_counter
            == before.round_counter + 1 && (after.round matches Some(round) && round.round_number
            == after.round_counter && round.start_time == now && round.end_time == now
            + before.config.round_duration) && after.ledger == before.ledger,
{
}

/// A validation of the tips from the end of the open round's window on is
/// refused with a consensus error and changes nothing.
pub proof fn law_late_validation_changes_nothing<P: PrivacyProofVerifier>(
    before: EngineView,
    after: EngineView,
    verifier: &P,
    result: Result<usize, SDUPIError>,
    now: u64,
)
    requires
        before.validates_tips(after, verifier, result, now),
        before.round matches Some(round) && now >= round.end_time,
    ensures
        result matches Err(SDUPIError::Consensus(_)),
        after == before,
{
}

/// No conflict is lost when a round starts: every unresolved conflict of the
/// round that was open, and every conflict of the backlog, is taken over.
pub proof fn law_conflicts_are_carried(engine: EngineView, conflict: ConflictView)
    requires
        (engine.round matches Some(round) && round.conflicts.contains(conflict)
            && !conflict.resolved) || engine.backlog.contains(conflict),
    ensures
        engine.carried_conflicts().contains(conflict),
{
    let carried = engine.carried_conflicts();
    match engine.round {
        Some(round) => {
            let open = crate::consensus::round::unresolved(round.conflicts);
            lemma_unresolved_complete(round.conflicts, round.conflicts.len() as int);
            if round.conflicts.contains(conflict) && !conflict.resolved {
                let k = choose|k: int|
                    0 <= k < round.conflicts.len() && round.conflicts[k] == conflict;
                assert(open.contains(round.conflicts[k]));
                let m = choose|m: int| 0 <= m < open.len() && open[m] == conflict;
                assert(carried[m] == conflict);
            } else {
                let m = choose|m: int|
                    0 <= m < engine.backlog.len() && engine.backlog[m] == conflict;
                assert(carried[open.len() + m] == conflict);
            }
        },
        None => {},
    }
}

/// A status never goes back: along any number of operations on a graph, the
/// status of a stored transaction only moves from pending to validated or
/// rejected and from validated to confirmed.
pub proof fn law_status_is_monotonic(first: GraphView, middle: GraphView, last: GraphView, id: u128)
    requires
        first.ids_unique(),
        middle.ids_unique(),
        last.ids_unique(),
        first.advances_to(middle),
        middle.advances_to(last),
        first.contains(id),
    ensures
        last.contains(id),
        first.status_of(id).reaches(middle.status_of(id)),
        middle.status_of(id).reaches(last.status_of(id)),
        first.status_of(id).reaches(last.status_of(id)),
        first.status_of(id).is_terminal() ==> last.status_of(id) == first.status_of(id),
{
    first.lemma_advances_keeps(middle, id);
    middle.lemma_advances_keeps(last, id);
    first.lemma_advances(middle, last);
    first.lemma_advances_keeps(last, id);
}

/// The tips of a graph are determined by the graph: a ledger has one tip
/// cache only that its invariant admits.
pub proof fn law_tips_determined(first: LedgerView, second: LedgerView)
    requires
        first.wf(),
        second.wf(),
        first.graph == second.graph,
    ensures
        first.tips == second.tips,
{
    first.graph.lemma_selection_unique(first.tips, second.tips);
}

} // verus!
