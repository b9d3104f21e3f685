//! The records that are stored, their keys, and the bytes of a round's
//! record.

use vstd::prelude::*;
use vstd::utf8::encode_utf8;
use crate::ambient::{uuid_hyphenated, uuid_text};
use crate::consensus::conflict::{clone_ids, Conflict, ConflictType, ConflictView};
use crate::consensus::registry::ValidatorStake;
use crate::consensus::round::AdvancedConsensusRound;
use crate::crypto::hex_text;
use crate::storage::wire::{
    lemma_parse_bool, lemma_parse_ids, lemma_parse_text, lemma_parse_texts, lemma_parse_u64,
    parse_bool, parse_ids, parse_text, parse_texts, parse_u64, put_bool, put_ids, put_text,
    put_texts, put_u64, remaining, take_bool, take_ids, take_text, take_texts, take_u64,
    text_views, texts_fit, wire_bool, wire_ids, wire_text, wire_texts, wire_u64,
};
use crate::text::{decimal_digits, decimal_string};
use crate::transaction::{Transaction, TransactionStatus, TransactionView};

verus! {

/// A validator's stake as it is stored.
#[derive(Debug)]
pub struct ValidatorStakeData {
    /// The public key in hexadecimal digits.
    pub public_key: String,
    pub stake_amount: u64,
    pub last_validation: Option<u64>,
    pub validation_count: u64,
}

impl ValidatorStakeData {
    /// The record of a registry entry.
    pub fn from_stake(stake: &ValidatorStake) -> (record: ValidatorStakeData)
        ensures
            record.public_key@ == hex_text(stake.public_key@),
            record.stake_amount == stake.stake_amount,
            record.last_validation == stake.last_validation,
            record.validation_count == stake.validation_count,
    {
        ValidatorStakeData {
            public_key: stake.public_key.to_hex(),
            stake_amount: stake.stake_amount,
            last_validation: stake.last_validation,
            validation_count: stake.validation_count,
        }
    }
}

/// A conflict as it is stored.
#[derive(Debug)]
pub struct ConflictData {
    pub transaction_ids: Vec<u128>,
    /// The name of the kind of conflict.
    pub conflict_type: String,
    pub detected_at: u64,
    pub resolved: bool,
}

/// The mathematical value of a stored conflict.
pub ghost struct ConflictDataView {
    pub transaction_ids: Seq<u128>,
    pub conflict_type: Seq<char>,
    pub detected_at: u64,
    pub resolved: bool,
}

impl View for ConflictData {
    type V = ConflictDataView;

    open spec fn view(&self) -> ConflictDataView {
        ConflictDataView {
            transaction_ids: self.transaction_ids@,
            conflict_type: self.conflict_type@,
            detected_at: self.detected_at,
            resolved: self.resolved,
        }
    }
}

/// The name of a kind of conflict.
pub open spec fn conflict_type_name(kind: ConflictType) -> Seq<char> {
    match kind {
        ConflictType::DoubleSpend => "DoubleSpend"@,
        ConflictType::InvalidParent => "InvalidParent"@,
        ConflictType::InsufficientStake => "InsufficientStake"@,
        ConflictType::InvalidZKProof => "InvalidZKProof"@,
    }
}

impl ConflictData {
    /// The stored form of a conflict.
    pub open spec fn of(c: ConflictView) -> ConflictDataView {
        ConflictDataView {
            transaction_ids: c.transaction_ids,
            conflict_type: conflict_type_name(c.conflict_type),
            detected_at: c.detected_at,
            resolved: c.resolved,
        }
    }

    /// The record of a conflict.
    pub fn from_conflict(conflict: &Conflict) -> (record: ConflictData)
        ensures
            record@ == ConflictData::of(conflict@),
    {
        let conflict_type = match conflict.conflict_type {
            ConflictType::DoubleSpend => String::from_str("DoubleSpend"),
            ConflictType::InvalidParent => String::from_str("InvalidParent"),
            ConflictType::InsufficientStake => String::from_str("InsufficientStake"),
            ConflictType::InvalidZKProof => String::from_str("InvalidZKProof"),
        };
        ConflictData {
            transaction_ids: clone_ids(&conflict.transaction_ids),
            conflict_type,
            detected_at: conflict.detected_at,
            resolved: conflict.resolved,
        }
    }
}

/// The views of a list of stored conflicts.
pub open spec fn conflict_data_views(conflicts: Seq<ConflictData>) -> Seq<ConflictDataView> {
    Seq::new(conflicts.len(), |i: int| conflicts[i]@)
}

/// A round as it is stored.
#[derive(Debug)]
pub struct ConsensusRoundData {
    pub round_number: u64,
    pub start_time: u64,
    pub end_time: u64,
    /// The validators' public keys in hexadecimal digits.
    pub validators: Vec<String>,
    pub validated_transactions: Vec<u128>,
    pub conflicts: Vec<ConflictData>,
}

/// The mathematical value of a stored round.
pub ghost struct RoundDataView {
    pub round_number: u64,
    pub start_time: u64,
    pub end_time: u64,
    pub validators: Seq<Seq<char>>,
    pub validated_transactions: Seq<u128>,
    pub conflicts: Seq<ConflictDataView>,
}

impl View for ConsensusRoundData {
    type V = RoundDataView;

    open spec fn view(&self) -> RoundDataView {
        RoundDataView {
            round_number: self.round_number,
            start_time: self.start_time,
            end_time: self.end_time,
            validators: text_views(self.validators@),
            validated_transactions: self.validated_transactions@,
            conflicts: conflict_data_views(self.conflicts@),
        }
    }
}

/// A peer as it is stored.
#[derive(Debug)]
pub struct NetworkPeerData {
    pub peer_id: String,
    pub address: String,
    pub last_seen: u64,
    pub is_connected: bool,
    pub node_type: String,
}

/// Counts of the stored records.
#[derive(Debug, Clone, Copy, PartialEq, Eq, Structural)]
pub struct StorageStats {
    pub transaction_count: usize,
    pub dag_node_count: usize,
    pub validator_stake_count: usize,
    pub consensus_round_count: usize,
    pub network_peer_count: usize,
}

/// The key under which a transaction is stored: its identifier as a UUID.
pub fn transaction_key(id: u128) -> (key: String)
    ensures
        key@ == uuid_hyphenated(id),
{
    uuid_text(id)
}

/// The key under which a round is stored: its number in decimal.
pub fn round_key(round_number: u64) -> (key: String)
    ensures
        key@ == decimal_digits(round_number as nat),
{
    decimal_string(round_number)
}

/// The transactions among the first `n` that have a status, in order.
pub open spec fn with_status(transactions: Seq<TransactionView>, status: TransactionStatus, n: int) -> Seq<
    TransactionView,
>
    decreases n,
{
    if n <= 0 {
        Seq::<TransactionView>::empty()
    } else if transactions[n - 1].status == status {
        with_status(transactions, status, n - 1).push(transactions[n - 1])
    } else {
        with_status(transactions, status, n - 1)
    }
}

/// Copies of the transactions of a list that have a status, in order.
pub fn get_transactions_by_status(transactions: &Vec<Transaction>, status: TransactionStatus) -> (found:
    Vec<Transaction>)
    ensures
        crate::dag::batch::transaction_views(found@) == with_status(
            crate::dag::batch::transaction_views(transactions@),
            status,
            transactions@.len() as int,
        ),
{
    let ghost views = crate::dag::batch::transaction_views(transactions@);
    let mut found: Vec<Transaction> = Vec::new();
    let mut i: usize = 0;
    assert(crate::dag::batch::transaction_views(found@) =~= Seq::<TransactionView>::empty());
    while i < transactions.len()
        invariant
            i <= transactions@.len(),
            views == crate::dag::batch::transaction_views(transactions@),
            crate::dag::batch::transaction_views(found@) == with_status(views, status, i as int),
        decreases transactions@.len() - i,
    {
        assert(views[i as int] == transactions@[i as int]@);
        if transactions[i].status == status {
            let ghost before = crate::dag::batch::transaction_views(found@);
            found.push(transactions[i].clone());
            assert(crate::dag::batch::transaction_views(found@) =~= before.push(views[i as int]));
        }
        i += 1;
    }
    found
}

/// Number of the transactions of a list that have a status.
pub fn get_transaction_count_by_status(transactions: &Vec<Transaction>, status: TransactionStatus) -> (count:
    usize)
    ensures
        count == with_status(
            crate::dag::batch::transaction_views(transactions@),
            status,
            transactions@.len() as int,
        ).len(),
{
    let ghost views = crate::dag::batch::transaction_views(transactions@);
    let mut count: usize = 0;
    let mut i: usize = 0;
    while i < transactions.len()
        invariant
            i <= transactions@.len(),
            views == crate::dag::batch::transaction_views(transactions@),
            count == with_status(views, status, i as int).len(),
            count <= i,
        decreases transactions@.len() - i,
    {
        assert(views[i as int] == transactions@[i as int]@);
        if transactions[i].status == status {
            count += 1;
        }
        i += 1;
    }
    count
}

/// The bytes of a stored conflict: its identifiers, the name of its kind, the
/// time of its detection and whether it is resolved.
pub open spec fn wire_conflict(c: ConflictDataView) -> Seq<u8> {
    wire_ids(c.transaction_ids) + wire_text(c.conflict_type) + wire_u64(c.detected_at)
        + wire_bool(c.resolved)
}

/// The bytes of the elements of a list of conflicts, one after the other.
pub open spec fn wire_conflict_items(conflicts: Seq<ConflictDataView>) -> Seq<u8>
    decreases conflicts.len(),
{
    if conflicts.len() == 0 {
        Seq::<u8>::empty()
    } else {
        wire_conflict_items(conflicts.drop_last()) + wire_conflict(conflicts.last())
    }
}

/// The bytes of a list of conflicts: its length, then its elements.
pub open spec fn wire_conflicts(conflicts: Seq<ConflictDataView>) -> Seq<u8> {
    wire_u64(conflicts.len() as u64) + wire_conflict_items(conflicts)
}

/// The bytes of a stored round: its number and window, the validators, the
/// validated transactions and the conflicts.
pub open spec fn wire_round(r: RoundDataView) -> Seq<u8> {
    wire_u64(r.round_number) + wire_u64(r.start_time) + wire_u64(r.end_time) + wire_texts(
        r.validators,
    ) + wire_ids(r.validated_transactions) + wire_conflicts(r.conflicts)
}

/// Reads a conflict from the front of bytes.
pub open spec fn parse_conflict(b: Seq<u8>) -> Option<(ConflictDataView, Seq<u8>)> {
    match parse_ids(b) {
        Some((transaction_ids, b1)) => match parse_text(b1) {
            Some((conflict_type, b2)) => match parse_u64(b2) {
                Some((detected_at, b3)) => match parse_bool(b3) {
                    Some((resolved, b4)) => Some(
                        (
                            ConflictDataView {
                                transaction_ids,
                                conflict_type,
                                detected_at,
                                resolved,
                            },
                            b4,
                        ),
                    ),
                    None => None,
                },
                None => None,
            },
            None => None,
        },
        None => None,
    }
}

/// Reads `n` conflicts from the front of bytes.
pub open spec fn parse_conflict_items(b: Seq<u8>, n: nat) -> Option<
    (Seq<ConflictDataView>, Seq<u8>),
>
    decreases n,
{
    if n == 0 {
        Some((Seq::<ConflictDataView>::empty(), b))
    } else {
        match parse_conflict(b) {
            Some((x, rest)) => match parse_conflict_items(rest, (n - 1) as nat) {
                Some((xs, last)) => Some((seq![x] + xs, last)),
                None => None,
            },
            None => None,
        }
    }
}

/// Reads a list of conflicts from the front of bytes.
pub open spec fn parse_conflicts(b: Seq<u8>) -> Option<(Seq<ConflictDataView>, Seq<u8>)> {
    match parse_u64(b) {
        Some((n, rest)) => parse_conflict_items(rest, n as nat),
        None => None,
    }
}

/// Reads a round from the front of bytes.
pub open spec fn parse_round(b: Seq<u8>) -> Option<(RoundDataView, Seq<u8>)> {
    match parse_u64(b) {
        Some((round_number, b1)) => match parse_u64(b1) {
            Some((start_time, b2)) => match parse_u64(b2) {
                Some((end_time, b3)) => match parse_texts(b3) {
                    Some((validators, b4)) => match parse_ids(b4) {
                        Some((validated_transactions, b5)) => match parse_conflicts(b5) {
                            Some((conflicts, b6)) => Some(
                                (
                                    RoundDataView {
                                        round_number,
                                        start_time,
                                        end_time,
                                        validators,
                                        validated_transactions,
                                        conflicts,
                                    },
                                    b6,
                                ),
                            ),
                            None => None,
                        },
                        None => None,
                    },
                    None => None,
                },
                None => None,
            },
            None => None,
        },
        None => None,
    }
}

/// The round that bytes hold, if they hold exactly one round.
pub open spec fn decoded_round(b: Seq<u8>) -> Option<RoundDataView> {
    match parse_round(b) {
        Some((round, rest)) => if rest.len() == 0 {
            Some(round)
        } else {
            None
        },
        None => None,
    }
}

impl ConflictDataView {
    /// Whether the lengths of the conflict can be said in 64 bits.
    pub open spec fn fits(self) -> bool {
        self.transaction_ids.len() <= u64::MAX && encode_utf8(self.conflict_type).len()
            <= u64::MAX
    }
}

impl RoundDataView {
    /// Whether the lengths of the round can be said in 64 bits. Every round
    /// that fits into memory does.
    pub open spec fn fits(self) -> bool {
        &&& self.validators.len() <= u64::MAX
        &&& texts_fit(self.validators)
        &&& self.validated_transactions.len() <= u64::MAX
        &&& self.conflicts.len() <= u64::MAX
        &&& forall|i: int| 0 <= i < self.conflicts.len() ==> (#[trigger] self.conflicts[i]).fits()
    }
}

/// A conflict is read back from its bytes, whatever follows them.
pub proof fn lemma_parse_conflict(c: ConflictDataView, rest: Seq<u8>)
    requires
        c.fits(),
    ensures
        parse_conflict(wire_conflict(c) + rest) == Some((c, rest)),
{
    let b3 = wire_bool(c.resolved) + rest;
    let b2 = wire_u64(c.detected_at) + b3;
    let b1 = wire_text(c.conflict_type) + b2;
    assert(wire_conflict(c) + rest =~= wire_ids(c.transaction_ids) + b1);
    lemma_parse_ids(c.transaction_ids, b1);
    lemma_parse_text(c.conflict_type, b2);
    lemma_parse_u64(c.detected_at, b3);
    lemma_parse_bool(c.resolved, rest);
}

/// The bytes of a list of conflicts begin with those of its first element.
pub proof fn lemma_conflict_items_front(conflicts: Seq<ConflictDataView>)
    requires
        conflicts.len() > 0,
    ensures
        wire_conflict_items(conflicts) == wire_conflict(conflicts[0]) + wire_conflict_items(
            conflicts.drop_first(),
        ),
    decreases conflicts.len(),
{
    if conflicts.len() == 1 {
        assert(conflicts.drop_last() =~= Seq::<ConflictDataView>::empty());
        assert(conflicts.drop_first() =~= Seq::<ConflictDataView>::empty());
        assert(wire_conflict_items(conflicts) =~= wire_conflict(conflicts[0])
            + wire_conflict_items(conflicts.drop_first()));
    } else {
        lemma_conflict_items_front(conflicts.drop_last());
        assert(conflicts.drop_last().drop_first() =~= conflicts.drop_first().drop_last());
        assert(conflicts.drop_first().last() == conflicts.last());
        assert(wire_conflict_items(conflicts) =~= wire_conflict(conflicts[0])
            + wire_conflict_items(conflicts.drop_first()));
    }
}

/// The elements of a list of conflicts are read back from their bytes.
pub proof fn lemma_parse_conflict_items(conflicts: Seq<ConflictDataView>, rest: Seq<u8>)
    requires
        forall|i: int| 0 <= i < conflicts.len() ==> (#[trigger] conflicts[i]).fits(),
    ensures
        parse_conflict_items(wire_conflict_items(conflicts) + rest, conflicts.len()) == Some(
            (conflicts, rest),
        ),
    decreases conflicts.len(),
{
    if conflicts.len() == 0 {
        assert(wire_conflict_items(conflicts) + rest =~= rest);
        assert(conflicts =~= Seq::<ConflictDataView>::empty());
    } else {
        lemma_conflict_items_front(conflicts);
        let tail = conflicts.drop_first();
        assert forall|i: int| 0 <= i < tail.len() implies (#[trigger] tail[i]).fits() by {
            assert(tail[i] == conflicts[i + 1]);
        }
        lemma_parse_conflict(conflicts[0], wire_conflict_items(tail) + rest);
        assert(wire_conflict_items(conflicts) + rest =~= wire_conflict(conflicts[0]) + (
        wire_conflict_items(tail) + rest));
        lemma_parse_conflict_items(tail, rest);
        assert(seq![conflicts[0]] + tail =~= conflicts);
    }
}

/// A stored round that is written to bytes and read back is the same round:
/// the same number, the same window, the same validators, the same
/// validated transactions and the same conflicts.
pub proof fn lemma_round_trip(r: RoundDataView)
    requires
        r.fits(),
    ensures
        decoded_round(wire_round(r)) == Some(r),
        parse_round(wire_round(r)) == Some((r, Seq::<u8>::empty())),
{
    let nothing = Seq::<u8>::empty();
    let b5 = wire_conflicts(r.conflicts);
    let b4 = wire_ids(r.validated_transactions) + b5;
    let b3 = wire_texts(r.validators) + b4;
    let b2 = wire_u64(r.end_time) + b3;
    let b1 = wire_u64(r.start_time) + b2;
    assert(wire_round(r) =~= wire_u64(r.round_number) + b1);
    lemma_parse_u64(r.round_number, b1);
    lemma_parse_u64(r.start_time, b2);
    lemma_parse_u64(r.end_time, b3);
    lemma_parse_texts(r.validators, b4);
    lemma_parse_ids(r.validated_transactions, b5);
    lemma_parse_u64(r.conflicts.len() as u64, wire_conflict_items(r.conflicts));
    lemma_parse_conflict_items(r.conflicts, nothing);
    assert(wire_conflict_items(r.conflicts) + nothing =~= wire_conflict_items(r.conflicts));
}

fn put_conflict(out: &mut Vec<u8>, conflict: &ConflictData)
    ensures
        final(out)@ == old(out)@ + wire_conflict(conflict@),
{
    put_ids(out, &conflict.transaction_ids);
    put_text(out, conflict.conflict_type.as_str());
    put_u64(out, conflict.detected_at);
    put_bool(out, conflict.resolved);
    assert(out@ =~= old(out)@ + wire_conflict(conflict@));
}

fn take_conflict(bytes: &[u8], pos: usize) -> (result: Option<(ConflictData, usize)>)
    requires
        pos <= bytes@.len(),
    ensures
        match parse_conflict(remaining(bytes@, pos as int)) {
            Some((x, rest)) => result matches Some((y, next)) && y@ == x && pos <= next
                <= bytes@.len() && remaining(bytes@, next as int) == rest,
            None => result is None,
        },
{
    let (transaction_ids, at1) = match take_ids(bytes, pos) {
        Some(read) => read,
        None => {
            return None;
        },
    };
    let (conflict_type, at2) = match take_text(bytes, at1) {
        Some(read) => read,
        None => {
            return None;
        },
    };
    let (detected_at, at3) = match take_u64(bytes, at2) {
        Some(read) => read,
        None => {
            return None;
        },
    };
    let (resolved, at4) = match take_bool(bytes, at3) {
        Some(read) => read,
        None => {
            return None;
        },
    };
    Some((ConflictData { transaction_ids, conflict_type, detected_at, resolved }, at4))
}

impl ConsensusRoundData {
    /// The stored form of a round: its number and window, the keys of its
    /// validators in hexadecimal digits, its validated transactions and its
    /// conflicts.
    pub fn from_round(round: &AdvancedConsensusRound) -> (record: ConsensusRoundData)
        ensures
            record.round_number == round.round_number,
            record.start_time == round.start_time,
            record.end_time == round.end_time,
            record@.validated_transactions == round@.validated_transactions,
            record@.validators.len() == round@.validators.len(),
            forall|i: int|
                0 <= i < record@.validators.len() ==> record@.validators[i] == hex_text(
                    round@.validators[i],
                ),
            record@.conflicts.len() == round@.conflicts.len(),
            forall|i: int|
                0 <= i < record@.conflicts.len() ==> record@.conflicts[i] == ConflictData::of(
                    round@.conflicts[i],
                ),
    {
        let mut validators: Vec<String> = Vec::new();
        let mut i: usize = 0;
        while i < round.validators.len()
            invariant
                i <= round.validators@.len(),
                validators@.len() == i,
                forall|j: int| 0 <= j < i ==> validators@[j]@ == hex_text(round.validators@[j]@),
            decreases round.validators@.len() - i,
        {
            validators.push(round.validators[i].to_hex());
            i += 1;
        }
        let mut conflicts: Vec<ConflictData> = Vec::new();
        let mut k: usize = 0;
        while k < round.conflicts.len()
            invariant
                k <= round.conflicts@.len(),
                conflicts@.len() == k,
                forall|j: int|
                    0 <= j < k ==> conflicts@[j]@ == ConflictData::of(round.conflicts@[j]@),
            decreases round.conflicts@.len() - k,
        {
            conflicts.push(ConflictData::from_conflict(&round.conflicts[k]));
            k += 1;
        }
        ConsensusRoundData {
            round_number: round.round_number,
            start_time: round.start_time,
            end_time: round.end_time,
            validators,
            validated_transactions: clone_ids(&round.validated_transactions),
            conflicts,
        }
    }

    /// Writes the round to bytes.
    pub fn encode(&self) -> (bytes: Vec<u8>)
        ensures
            bytes@ == wire_round(self@),
    {
        let mut out: Vec<u8> = Vec::new();
        put_u64(&mut out, self.round_number);
        put_u64(&mut out, self.start_time);
        put_u64(&mut out, self.end_time);
        put_texts(&mut out, &self.validators);
        put_ids(&mut out, &self.validated_transactions);
        put_u64(&mut out, self.conflicts.len() as u64);
        let ghost start = out@;
        let ghost views = conflict_data_views(self.conflicts@);
        let mut i: usize = 0;
        assert(views.subrange(0, 0) =~= Seq::<ConflictDataView>::empty());
        assert(out@ =~= start + wire_conflict_items(views.subrange(0, 0)));
        while i < self.conflicts.len()
            invariant
                i <= self.conflicts@.len(),
                views == conflict_data_views(self.conflicts@),
                out@ == start + wire_conflict_items(views.subrange(0, i as int)),
            decreases self.conflicts@.len() - i,
        {
            put_conflict(&mut out, &self.conflicts[i]);
            proof {
                let more = views.subrange(0, i + 1);
                assert(more.drop_last() =~= views.subrange(0, i as int));
                assert(more.last() == self.conflicts@[i as int]@);
                assert(out@ =~= start + wire_conflict_items(more));
            }
            i += 1;
        }
        assert(views.subrange(0, views.len() as int) =~= views);
        assert(out@ =~= wire_round(self@));
        out
    }

    /// The lengths of a round in memory can be said in 64 bits.
    fn measure(&self)
        ensures
            self@.fits(),
    {
        let view_count = self.validators.len();
        let mut i: usize = 0;
        while i < self.validators.len()
            invariant
                i <= self.validators@.len(),
                forall|j: int|
                    0 <= j < i ==> encode_utf8(#[trigger] text_views(self.validators@)[j]).len()
                        <= u64::MAX,
            decreases self.validators@.len() - i,
        {
            let size = self.validators[i].as_str().as_bytes().len();
            assert(text_views(self.validators@)[i as int] == self.validators@[i as int]@);
            i += 1;
        }
        let id_count = self.validated_transactions.len();
        let conflict_count = self.conflicts.len();
        let mut k: usize = 0;
        while k < self.conflicts.len()
            invariant
                k <= self.conflicts@.len(),
                forall|j: int|
                    0 <= j < k ==> (#[trigger] conflict_data_views(self.conflicts@)[j]).fits(),
            decreases self.conflicts@.len() - k,
        {
            let ids = self.conflicts[k].transaction_ids.len();
            let size = self.conflicts[k].conflict_type.as_str().as_bytes().len();
            assert(conflict_data_views(self.conflicts@)[k as int] == self.conflicts@[k as int]@);
            k += 1;
        }
    }

    /// Writes the round to bytes and reads it back. What comes back is the
    /// round that went in.
    pub fn read_back(&self) -> (copy: Option<ConsensusRoundData>)
        ensures
            copy matches Some(round) && round@ == self@,
    {
        self.measure();
        proof {
            lemma_round_trip(self@);
        }
        let bytes = self.encode();
        ConsensusRoundData::decode(bytes.as_slice())
    }

    /// Reads a round from bytes that hold exactly one round.
    pub fn decode(bytes: &[u8]) -> (result: Option<ConsensusRoundData>)
        ensures
            match decoded_round(bytes@) {
                Some(round) => result matches Some(r) && r@ == round,
                None => result is None,
            },
    {
        assert(remaining(bytes@, 0) =~= bytes@);
        let (round_number, at1) = match take_u64(bytes, 0) {
            Some(read) => read,
            None => {
                return None;
            },
        };
        let (start_time, at2) = match take_u64(bytes, at1) {
            Some(read) => read,
            None => {
                return None;
            },
        };
        let (end_time, at3) = match take_u64(bytes, at2) {
            Some(read) => read,
            None => {
                return None;
            },
        };
        let (validators, at4) = match take_texts(bytes, at3) {
            Some(read) => read,
            None => {
                return None;
            },
        };
        let (validated_transactions, at5) = match take_ids(bytes, at4) {
            Some(read) => read,
            None => {
                return None;
            },
        };
        let (n, start) = match take_u64(bytes, at5) {
            Some(read) => read,
            None => {
                return None;
            },
        };
        let ghost first = remaining(bytes@, start as int);
        let mut conflicts: Vec<ConflictData> = Vec::new();
        let mut at: usize = start;
        let mut i: u64 = 0;
        assert(conflict_data_views(conflicts@) =~= Seq::<ConflictDataView>::empty());
        assert(Seq::<ConflictDataView>::empty() + Seq::<ConflictDataView>::empty()
            =~= Seq::<ConflictDataView>::empty());
        while i < n
            invariant
                i <= n,
                start <= at <= bytes@.len(),
                first == remaining(bytes@, start as int),
                parse_conflicts(remaining(bytes@, at5 as int)) == parse_conflict_items(
                    first,
                    n as nat,
                ),
                parse_round(bytes@) == (match parse_conflicts(remaining(bytes@, at5 as int)) {
                    Some((found, rest)) => Some(
                        (
                            RoundDataView {
                                round_number,
                                start_time,
                                end_time,
                                validators: text_views(validators@),
                                validated_transactions: validated_transactions@,
                                conflicts: found,
                            },
                            rest,
                        ),
                    ),
                    None => None,
                }),
                parse_conflict_items(first, n as nat) == (match parse_conflict_items(
                    remaining(bytes@, at as int),
                    (n - i) as nat,
                ) {
                    Some((xs, rest)) => Some((conflict_data_views(conflicts@) + xs, rest)),
                    None => None,
                }),
            decreases n - i,
        {
            match take_conflict(bytes, at) {
                Some((x, next)) => {
                    let ghost before = conflict_data_views(conflicts@);
                    let ghost view = x@;
                    proof {
                        let after = remaining(bytes@, next as int);
                        match parse_conflict_items(after, (n - i - 1) as nat) {
                            Some((xs, rest)) => {
                                assert(before + (seq![view] + xs) =~= before.push(view) + xs);
                            },
                            None => {},
                        }
                    }
                    conflicts.push(x);
                    assert(conflict_data_views(conflicts@) =~= before.push(view));
                    at = next;
                },
                None => {
                    return None;
                },
            }
            i += 1;
        }
        assert(conflict_data_views(conflicts@) + Seq::<ConflictDataView>::empty()
            =~= conflict_data_views(conflicts@));
        if at != bytes.len() {
            return None;
        }
        Some(
            ConsensusRoundData {
                round_number,
                start_time,
                end_time,
                validators,
                validated_transactions,
                conflicts,
            },
        )
    }
}

} // verus!
