//! Conflicts between transactions and their detection.

use vstd::prelude::*;

verus! {

/// What kind of inconsistency a conflict records.
#[derive(Debug, Clone, Copy, PartialEq, Eq, Structural)]
pub enum ConflictType {
    DoubleSpend,
    InvalidParent,
    InsufficientStake,
    InvalidZKProof,
}

/// A detected inconsistency among transactions that blocks their
/// confirmation until it is resolved.
#[derive(Debug)]
pub struct Conflict {
    /// The transactions in conflict, candidates of the resolution.
    pub transaction_ids: Vec<u128>,
    pub conflict_type: ConflictType,
    /// Detection time in milliseconds since the Unix epoch.
    pub detected_at: u64,
    pub resolved: bool,
}

/// The mathematical value of a conflict.
pub ghost struct ConflictView {
    pub transaction_ids: Seq<u128>,
    pub conflict_type: ConflictType,
    pub detected_at: u64,
    pub resolved: bool,
}

impl View for Conflict {
    type V = ConflictView;

    open spec fn view(&self) -> ConflictView {
        ConflictView {
            transaction_ids: self.transaction_ids@,
            conflict_type: self.conflict_type,
            detected_at: self.detected_at,
            resolved: self.resolved,
        }
    }
}

/// The views of a list of conflicts.
pub open spec fn conflict_views(conflicts: Seq<Conflict>) -> Seq<ConflictView> {
    Seq::new(conflicts.len(), |i: int| conflicts[i]@)
}

/// Copies a list of identifiers.
pub fn clone_ids(ids: &Vec<u128>) -> (copy: Vec<u128>)
    ensures
        copy@ == ids@,
{
    let mut copy: Vec<u128> = Vec::new();
    let mut i: usize = 0;
    while i < ids.len()
        invariant
            i <= ids.len(),
            copy@ == ids@.subrange(0, i as int),
        decreases ids.len() - i,
    {
        copy.push(ids[i]);
        assert(copy@ =~= ids@.subrange(0, i + 1));
        i += 1;
    }
    assert(ids@.subrange(0, ids.len() as int) =~= ids@);
    copy
}

impl Clone for Conflict {
    fn clone(&self) -> (copy: Conflict)
        ensures
            copy@ == self@,
    {
        Conflict {
            transaction_ids: clone_ids(&self.transaction_ids),
            conflict_type: self.conflict_type,
            detected_at: self.detected_at,
            resolved: self.resolved,
        }
    }
}

impl ConflictView {
    /// Whether the conflict names one transaction only, however often: no
    /// two of its candidates differ.
    pub open spec fn single(self) -> bool {
        forall|a: int, b: int|
            0 <= a < self.transaction_ids.len() && 0 <= b < self.transaction_ids.len()
                ==> self.transaction_ids[a] == self.transaction_ids[b]
    }
}

/// Whether every conflict of a list names one transaction only.
pub open spec fn all_single(conflicts: Seq<ConflictView>) -> bool {
    forall|k: int| 0 <= k < conflicts.len() ==> (#[trigger] conflicts[k]).single()
}

impl Conflict {
    /// The unresolved conflict of a transaction with a missing parent.
    pub open spec fn spec_invalid_parent(id: u128, now: u64) -> ConflictView {
        ConflictView {
            transaction_ids: seq![id],
            conflict_type: ConflictType::InvalidParent,
            detected_at: now,
            resolved: false,
        }
    }

    /// The unresolved conflict of a new transaction with the stored one that
    /// already bears its identifier.
    pub open spec fn spec_double_spend(id: u128, existing: u128, now: u64) -> ConflictView {
        ConflictView {
            transaction_ids: seq![id, existing],
            conflict_type: ConflictType::DoubleSpend,
            detected_at: now,
            resolved: false,
        }
    }

    /// Records that a transaction names a parent that is not stored.
    pub fn invalid_parent(id: u128, now: u64) -> (c: Conflict)
        ensures
            c@ == Conflict::spec_invalid_parent(id, now),
    {
        let mut ids: Vec<u128> = Vec::new();
        ids.push(id);
        assert(ids@ =~= seq![id]);
        Conflict {
            transaction_ids: ids,
            conflict_type: ConflictType::InvalidParent,
            detected_at: now,
            resolved: false,
        }
    }

    /// Records that a new transaction collides with a stored one.
    pub fn double_spend(id: u128, existing: u128, now: u64) -> (c: Conflict)
        ensures
            c@ == Conflict::spec_double_spend(id, existing, now),
    {
        let mut ids: Vec<u128> = Vec::new();
        ids.push(id);
        ids.push(existing);
        assert(ids@ =~= seq![id, existing]);
        Conflict {
            transaction_ids: ids,
            conflict_type: ConflictType::DoubleSpend,
            detected_at: now,
            resolved: false,
        }
    }
}

} // verus!
