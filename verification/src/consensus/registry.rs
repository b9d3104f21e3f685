//! The registry of validators and their stakes.

use vstd::prelude::*;
use crate::crypto::PublicKey;
use crate::error::SDUPIError;
use crate::registry::Registry;
use crate::text::{decimal_digits, decimal_string};

verus! {

/// What the registry keeps about a validator.
#[derive(Debug, Clone, Copy)]
pub struct ValidatorStake {
    pub public_key: PublicKey,
    pub stake_amount: u64,
    /// Time of the last validation in milliseconds since the Unix epoch.
    pub last_validation: Option<u64>,
    pub validation_count: u64,
}

impl ValidatorStake {
    /// The entry of a validator that has just registered.
    pub open spec fn fresh(public_key: PublicKey, stake_amount: u64) -> ValidatorStake {
        ValidatorStake { public_key, stake_amount, last_validation: None, validation_count: 0 }
    }

    /// The time of the last validation after a validation at time `now`:
    /// the later of `now` and the time that is kept.
    pub open spec fn refreshed(self, now: u64) -> u64 {
        match self.last_validation {
            Some(kept) => if kept > now {
                kept
            } else {
                now
            },
            None => now,
        }
    }

    /// The entry after one more validation at time `now`: the time of the
    /// last validation never goes back, and the count stops at the largest
    /// 64-bit number.
    pub open spec fn credited(self, now: u64) -> ValidatorStake {
        ValidatorStake {
            last_validation: Some(self.refreshed(now)),
            validation_count: if self.validation_count == u64::MAX {
                u64::MAX
            } else {
                (self.validation_count + 1) as u64
            },
            ..self
        }
    }
}

/// Text of the error for a stake below the minimum.
pub open spec fn stake_error_text(stake: u64, min_stake: u64) -> Seq<char> {
    "Stake "@ + decimal_digits(stake as nat) + " is below minimum "@ + decimal_digits(
        min_stake as nat,
    )
}

/// Sum of stakes, held at the largest 64-bit number when it would pass it.
pub open spec fn capped_total(stakes: Seq<ValidatorStake>) -> int
    decreases stakes.len(),
{
    if stakes.len() == 0 {
        0
    } else {
        let rest = capped_total(stakes.drop_last());
        if rest + stakes.last().stake_amount > u64::MAX {
            u64::MAX as int
        } else {
            rest + stakes.last().stake_amount
        }
    }
}

/// The entries of the validators of a list, in its order.
pub open spec fn stakes_in_order(
    entries: Map<Seq<u8>, ValidatorStake>,
    order: Seq<Seq<u8>>,
) -> Seq<ValidatorStake> {
    Seq::new(order.len(), |i: int| entries[order[i]])
}

/// Whether a list names the validators of a table, once each.
pub open spec fn lists_validators(
    entries: Map<Seq<u8>, ValidatorStake>,
    order: Seq<Seq<u8>>,
) -> bool {
    order.no_duplicates() && forall|key: Seq<u8>|
        entries.contains_key(key) <==> order.contains(key)
}

/// The order of registration after a validator has registered: one that is
/// new comes last, one that registers again keeps its place.
pub open spec fn order_with(
    entries: Map<Seq<u8>, ValidatorStake>,
    order: Seq<Seq<u8>>,
    key: Seq<u8>,
) -> Seq<Seq<u8>> {
    if entries.contains_key(key) {
        order
    } else {
        order.push(key)
    }
}

/// The table of validators by public key, with the smallest stake that it
/// admits. Validators are never removed.
#[derive(Debug)]
pub struct ValidatorRegistry {
    entries: Registry<ValidatorStake>,
    min_stake: u64,
}

impl View for ValidatorRegistry {
    type V = Map<Seq<u8>, ValidatorStake>;

    closed spec fn view(&self) -> Map<Seq<u8>, ValidatorStake> {
        self.entries@
    }
}

impl ValidatorRegistry {
    /// The smallest stake that the registry admits.
    pub closed spec fn min_stake(&self) -> u64 {
        self.min_stake
    }

    /// The public keys of the validators in the order in which they first
    /// registered.
    pub closed spec fn order(&self) -> Seq<Seq<u8>> {
        self.entries.keys()
    }

    /// The entries in the order in which their validators first registered.
    pub closed spec fn listing(&self) -> Seq<ValidatorStake> {
        self.entries.values()
    }

    /// The order of registration names the validators of the table, once
    /// each, and the listing holds their entries in that order.
    pub proof fn lemma_order(&self)
        requires
            self.wf(),
        ensures
            lists_validators(self@, self.order()),
            self.listing() == stakes_in_order(self@, self.order()),
    {
        let listed = stakes_in_order(self@, self.order());
        assert forall|i: int| 0 <= i < listed.len() implies listed[i] == self.listing()[i] by {
            self.entries.lemma_place(i);
        }
        assert(self.listing() =~= listed);
    }

    /// The registry's invariant.
    pub closed spec fn wf(&self) -> bool {
        self.entries.wf()
    }

    /// Whether a validator is registered.
    pub open spec fn registered(&self, key: Seq<u8>) -> bool {
        self@.contains_key(key)
    }

    /// Creates an empty registry.
    pub fn new(min_stake: u64) -> (registry: ValidatorRegistry)
        ensures
            registry.wf(),
            registry.min_stake() == min_stake,
            registry@ == Map::<Seq<u8>, ValidatorStake>::empty(),
            registry.order() == Seq::<Seq<u8>>::empty(),
            registry.listing().len() == 0,
    {
        let registry = ValidatorRegistry { entries: Registry::new(), min_stake };
        assert(registry.order() =~= Seq::<Seq<u8>>::empty());
        registry
    }

    /// Registers a validator with a stake. A stake below the minimum is
    /// refused and leaves the registry as it is. A validator that registers
    /// again gets a fresh entry in the place of the old.
    pub fn register(&mut self, public_key: PublicKey, stake_amount: u64) -> (result: Result<
        (),
        SDUPIError,
    >)
        requires
            old(self).wf(),
        ensures
            final(self).wf(),
            final(self).min_stake() == old(self).min_stake(),
            result is Ok <==> stake_amount >= old(self).min_stake(),
            result is Ok ==> final(self)@ == old(self)@.insert(
                public_key@,
                ValidatorStake::fresh(public_key, stake_amount),
            ),
            result is Ok ==> final(self).order() == order_with(
                old(self)@,
                old(self).order(),
                public_key@,
            ),
            result is Err ==> final(self)@ == old(self)@ && final(self).listing() == old(self).listing()
                && final(self).order() == old(self).order(),
            result matches Err(e) ==> e matches SDUPIError::InsufficientStake(m) && m@
                == stake_error_text(stake_amount, old(self).min_stake()),
    {
        if stake_amount < self.min_stake {
            let text = String::from_str("Stake ").concat(
                decimal_string(stake_amount).as_str(),
            ).concat(" is below minimum ").concat(decimal_string(self.min_stake).as_str());
            return Err(SDUPIError::InsufficientStake(text));
        }
        let entry = ValidatorStake {
            public_key,
            stake_amount,
            last_validation: None,
            validation_count: 0,
        };
        let key = public_key.to_bytes();
        let mut key_bytes: Vec<u8> = Vec::new();
        let mut i: usize = 0;
        while i < 32
            invariant
                i <= 32,
                key@.len() == 32,
                key_bytes@ == key@.subrange(0, i as int),
            decreases 32 - i,
        {
            key_bytes.push(key[i]);
            assert(key_bytes@ =~= key@.subrange(0, i + 1));
            i += 1;
        }
        assert(key@.subrange(0, 32) =~= key@);
        self.entries.insert(key_bytes, entry);
        Ok(())
    }

    /// The entry of a validator.
    pub fn get(&self, public_key: &PublicKey) -> (found: Option<ValidatorStake>)
        requires
            self.wf(),
        ensures
            found is Some <==> self.registered(public_key@),
            found matches Some(entry) ==> entry == self@[public_key@],
    {
        let key = public_key.to_bytes();
        match self.entries.get(key.as_slice()) {
            Some(entry) => Some(*entry),
            None => None,
        }
    }

    /// The registry after a validation by a validator at time `now`: the
    /// validator's entry is credited; a registry that does not know the
    /// validator stays as it is.
    pub open spec fn credited(entries: Map<Seq<u8>, ValidatorStake>, key: Seq<u8>, now: u64) -> Map<
        Seq<u8>,
        ValidatorStake,
    > {
        if entries.contains_key(key) {
            entries.insert(key, entries[key].credited(now))
        } else {
            entries
        }
    }

    /// Credits a validator with one more validation at time `now`. The time
    /// of its last validation becomes `now`, unless a later time is kept.
    pub fn record_validation(&mut self, public_key: &PublicKey, now: u64)
        requires
            old(self).wf(),
        ensures
            final(self).wf(),
            final(self).min_stake() == old(self).min_stake(),
            final(self)@ == ValidatorRegistry::credited(old(self)@, public_key@, now),
            final(self).order() == old(self).order(),
            final(self).listing().len() == old(self).listing().len(),
    {
        let key = public_key.to_bytes();
        match self.entries.position(key.as_slice()) {
            None => {},
            Some(i) => {
                let entry = *self.entries.value_at(i);
                let count = if entry.validation_count == u64::MAX {
                    u64::MAX
                } else {
                    entry.validation_count + 1
                };
                let last = match entry.last_validation {
                    Some(kept) => if kept > now {
                        kept
                    } else {
                        now
                    },
                    None => now,
                };
                proof {
                    self.entries.lemma_place(i as int);
                }
                self.entries.replace_at(
                    i,
                    ValidatorStake {
                        public_key: entry.public_key,
                        stake_amount: entry.stake_amount,
                        last_validation: Some(last),
                        validation_count: count,
                    },
                );
            },
        }
    }

    /// Number of registered validators.
    pub fn len(&self) -> (n: usize)
        ensures
            n == self.listing().len(),
            n == self.order().len(),
    {
        self.entries.len()
    }

    /// Sum of all stakes, held at the largest 64-bit number.
    pub fn total_stake(&self) -> (total: u64)
        requires
            self.wf(),
        ensures
            total == capped_total(self.listing()),
            total == capped_total(stakes_in_order(self@, self.order())),
    {
        proof {
            self.lemma_order();
        }
        let mut total: u64 = 0;
        let mut i: usize = 0;
        while i < self.entries.len()
            invariant
                i <= self.entries.values().len(),
                total == capped_total(self.entries.values().subrange(0, i as int)),
            decreases self.entries.values().len() - i,
        {
            let ghost prefix = self.entries.values().subrange(0, i + 1);
            assert(prefix.drop_last() =~= self.entries.values().subrange(0, i as int));
            total = total.saturating_add(self.entries.value_at(i).stake_amount);
            i += 1;
        }
        assert(self.entries.values().subrange(0, self.entries.values().len() as int)
            =~= self.entries.values());
        total
    }
}

} // verus!
