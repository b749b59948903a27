//! The position registry: the model of the external non-fungible record that
//! keeps, for each locked position, its owner, its weight and its creation
//! time. The staking controller reads and writes positions only through the
//! methods here; ownership checks for burning belong to the registry, not to
//! the controller.

use vstd::prelude::*;
use vstd::pervasive::VecAdditionalExecFns;

use crate::errors::NftError;

verus! {

/// An account reference, as the host chain identifies callers and owners.
pub type AccountId = u128;

/// The record the position registry keeps for one position.
#[derive(Debug, Clone, Copy, PartialEq, Eq, Structural)]
pub struct GovernanceData {
    /// The position's identifier, unique for the registry's whole life.
    pub id: u128,
    /// The account the position belongs to.
    pub owner: AccountId,
    /// The stake the position stands for, in token units.
    pub vote_weight: u128,
    /// The host time at which the position was minted, in milliseconds.
    pub block_created: u64,
}

/// True when no two positions of `s` share an identifier.
pub open spec fn unique_ids(s: Seq<GovernanceData>) -> bool {
    forall|i: int, j: int| 0 <= i < j < s.len() ==> s[i].id != s[j].id
}

/// True when `s` holds a position with identifier `id`.
pub open spec fn has_id(s: Seq<GovernanceData>, id: u128) -> bool {
    exists|i: int| 0 <= i < s.len() && s[i].id == id
}

/// The index at which `s` holds the position with identifier `id`.
pub open spec fn idx_of(s: Seq<GovernanceData>, id: u128) -> int {
    choose|i: int| 0 <= i < s.len() && s[i].id == id
}

/// The record of the position with identifier `id`.
pub open spec fn data_of(s: Seq<GovernanceData>, id: u128) -> GovernanceData {
    s[idx_of(s, id)]
}

/// The sum of the weights of all positions of `s`.
pub open spec fn sum_weights(s: Seq<GovernanceData>) -> int
    decreases s.len(),
{
    if s.len() == 0 {
        0
    } else {
        sum_weights(s.drop_last()) + s.last().vote_weight
    }
}

/// With unique identifiers, the index found for a position's identifier is
/// the index the position stands at.
pub proof fn lemma_idx_of(s: Seq<GovernanceData>, i: int)
    requires
        unique_ids(s),
        0 <= i < s.len(),
    ensures
        has_id(s, s[i].id),
        idx_of(s, s[i].id) == i,
{
    assert(has_id(s, s[i].id));
    let j = idx_of(s, s[i].id);
    if i < j {
        assert(s[i].id != s[j].id);
    } else if j < i {
        assert(s[j].id != s[i].id);
    }
}

/// Appending a position adds its weight to the sum.
pub proof fn lemma_sum_weights_push(s: Seq<GovernanceData>, d: GovernanceData)
    ensures
        sum_weights(s.push(d)) == sum_weights(s) + d.vote_weight,
{
    assert(s.push(d).drop_last() =~= s);
}

/// Replacing the position at one index shifts the sum by the change in its
/// weight alone.
pub proof fn lemma_sum_weights_update(s: Seq<GovernanceData>, i: int, d: GovernanceData)
    requires
        0 <= i < s.len(),
    ensures
        sum_weights(s.update(i, d)) == sum_weights(s) - s[i].vote_weight + d.vote_weight,
    decreases s.len(),
{
    if i == s.len() - 1 {
        assert(s.update(i, d).drop_last() =~= s.drop_last());
        assert(s.update(i, d).last() == d);
    } else {
        assert(s.update(i, d).drop_last() =~= s.drop_last().update(i, d));
        assert(s.update(i, d).last() == s.last());
        lemma_sum_weights_update(s.drop_last(), i, d);
    }
}

/// Removing the position at one index takes exactly its weight out of the sum.
pub proof fn lemma_sum_weights_remove(s: Seq<GovernanceData>, i: int)
    requires
        0 <= i < s.len(),
    ensures
        sum_weights(s.remove(i)) == sum_weights(s) - s[i].vote_weight,
    decreases s.len(),
{
    if i == s.len() - 1 {
        assert(s.remove(i) =~= s.drop_last());
    } else {
        assert(s.remove(i).drop_last() =~= s.drop_last().remove(i));
        assert(s.remove(i).last() == s.last());
        lemma_sum_weights_remove(s.drop_last(), i);
    }
}

/// The position registry: every active position, in mint order, and the next
/// identifier to hand out. Burned positions leave no trace here.
#[derive(Clone)]
pub struct GovernanceNft {
    /// The active positions, in the order they were minted.
    pub positions: Vec<GovernanceData>,
    /// The identifier the next minted position receives; identifiers are
    /// never reused.
    pub next_id: u128,
}

impl GovernanceNft {
    /// The registry's own invariant: identifiers are pairwise distinct and
    /// all lie below the next one to hand out.
    pub open spec fn wf(self) -> bool {
        &&& unique_ids(self.positions@)
        &&& forall|i: int|
            0 <= i < self.positions@.len() ==> (#[trigger] self.positions@[i]).id < self.next_id
    }

    /// An empty registry; the first position minted gets identifier 1.
    pub fn new() -> (r: GovernanceNft)
        ensures
            r.wf(),
            r.positions@ == Seq::<GovernanceData>::empty(),
            r.next_id == 1,
    {
        let v: Vec<GovernanceData> = Vec::new();
        proof {
            assert(v@ =~= Seq::<GovernanceData>::empty());
        }
        GovernanceNft { positions: v, next_id: 1 }
    }

    /// The index of the position with identifier `id`, if one is active.
    fn find_index(&self, id: u128) -> (r: Option<usize>)
        requires
            self.wf(),
        ensures
            match r {
                Some(i) => {
                    &&& i < self.positions@.len()
                    &&& self.positions@[i as int].id == id
                    &&& has_id(self.positions@, id)
                    &&& idx_of(self.positions@, id) == i
                },
                None => !has_id(self.positions@, id),
            },
    {
        let n = self.positions.len();
        let mut i: usize = 0;
        while i < n
            invariant
                n == self.positions@.len(),
                i <= n,
                self.wf(),
                forall|j: int| 0 <= j < i ==> self.positions@[j].id != id,
            decreases n - i,
        {
            if self.positions[i].id == id {
                proof {
                    lemma_idx_of(self.positions@, i as int);
                }
                return Some(i);
            }
            i += 1;
        }
        None
    }

    /// Mints a new position of weight `weight` for `to` at host time `now`
    /// and returns its identifier, which no position ever carried before.
    pub fn mint(&mut self, to: AccountId, weight: u128, now: u64) -> (id: u128)
        requires
            old(self).wf(),
            old(self).next_id < u128::MAX,
        ensures
            final(self).wf(),
            id == old(self).next_id,
            !has_id(old(self).positions@, id),
            final(self).next_id == old(self).next_id + 1,
            final(self).positions@ == old(self).positions@.push(
                GovernanceData { id, owner: to, vote_weight: weight, block_created: now },
            ),
    {
        let id = self.next_id;
        self.positions.push(GovernanceData { id, owner: to, vote_weight: weight, block_created: now });
        self.next_id = id + 1;
        id
    }

    /// The record of the position with identifier `id`, if one is active.
    pub fn get_governance_data(&self, id: u128) -> (r: Option<GovernanceData>)
        requires
            self.wf(),
        ensures
            match r {
                Some(d) => has_id(self.positions@, id) && d == data_of(self.positions@, id),
                None => !has_id(self.positions@, id),
            },
    {
        match self.find_index(id) {
            Some(i) => Some(self.positions[i]),
            None => None,
        }
    }

    /// Grows the weight of position `id` by `amount`. Rejected when no such
    /// position is active or the weight would leave `u128`; nothing changes
    /// then.
    pub fn increment_weight(&mut self, id: u128, amount: u128) -> (r: Result<(), NftError>)
        requires
            old(self).wf(),
        ensures
            final(self).wf(),
            final(self).next_id == old(self).next_id,
            match r {
                Ok(()) => {
                    &&& has_id(old(self).positions@, id)
                    &&& data_of(old(self).positions@, id).vote_weight + amount <= u128::MAX
                    &&& final(self).positions@ == old(self).positions@.update(
                        idx_of(old(self).positions@, id),
                        GovernanceData {
                            vote_weight: (data_of(old(self).positions@, id).vote_weight
                                + amount) as u128,
                            ..data_of(old(self).positions@, id)
                        },
                    )
                },
                Err(NftError::TokenNotFound) => {
                    &&& !has_id(old(self).positions@, id)
                    &&& final(self).positions@ == old(self).positions@
                },
                Err(NftError::WeightOverflow) => {
                    &&& has_id(old(self).positions@, id)
                    &&& data_of(old(self).positions@, id).vote_weight + amount > u128::MAX
                    &&& final(self).positions@ == old(self).positions@
                },
                Err(_) => false,
            },
    {
        match self.find_index(id) {
            Some(i) => {
                let d = self.positions[i];
                if amount > u128::MAX - d.vote_weight {
                    Err(NftError::WeightOverflow)
                } else {
                    self.positions.set(
                        i,
                        GovernanceData { vote_weight: d.vote_weight + amount, ..d },
                    );
                    Ok(())
                }
            },
            None => Err(NftError::TokenNotFound),
        }
    }

    /// Shrinks the weight of position `id` by `amount`. Rejected when no such
    /// position is active or it holds less than `amount`; nothing changes
    /// then.
    pub fn decrement_weight(&mut self, id: u128, amount: u128) -> (r: Result<(), NftError>)
        requires
            old(self).wf(),
        ensures
            final(self).wf(),
            final(self).next_id == old(self).next_id,
            match r {
                Ok(()) => {
                    &&& has_id(old(self).positions@, id)
                    &&& amount <= data_of(old(self).positions@, id).vote_weight
                    &&& final(self).positions@ == old(self).positions@.update(
                        idx_of(old(self).positions@, id),
                        GovernanceData {
                            vote_weight: (data_of(old(self).positions@, id).vote_weight
                                - amount) as u128,
                            ..data_of(old(self).positions@, id)
                        },
                    )
                },
                Err(NftError::TokenNotFound) => {
                    &&& !has_id(old(self).positions@, id)
                    &&& final(self).positions@ == old(self).positions@
                },
                Err(NftError::WeightUnderflow) => {
                    &&& has_id(old(self).positions@, id)
                    &&& amount > data_of(old(self).positions@, id).vote_weight
                    &&& final(self).positions@ == old(self).positions@
                },
                Err(_) => false,
            },
    {
        match self.find_index(id) {
            Some(i) => {
                let d = self.positions[i];
                if amount > d.vote_weight {
                    Err(NftError::WeightUnderflow)
                } else {
                    self.positions.set(
                        i,
                        GovernanceData { vote_weight: d.vote_weight - amount, ..d },
                    );
                    Ok(())
                }
            },
            None => Err(NftError::TokenNotFound),
        }
    }

    /// Burns position `id` on behalf of `from`. Rejected when no such
    /// position is active or `from` does not own it; nothing changes then.
    pub fn burn(&mut self, from: AccountId, id: u128) -> (r: Result<(), NftError>)
        requires
            old(self).wf(),
        ensures
            final(self).wf(),
            final(self).next_id == old(self).next_id,
            match r {
                Ok(()) => {
                    &&& has_id(old(self).positions@, id)
                    &&& data_of(old(self).positions@, id).owner == from
                    &&& final(self).positions@ == old(self).positions@.remove(
                        idx_of(old(self).positions@, id),
                    )
                },
                Err(NftError::TokenNotFound) => {
                    &&& !has_id(old(self).positions@, id)
                    &&& final(self).positions@ == old(self).positions@
                },
                Err(NftError::NotOwner) => {
                    &&& has_id(old(self).positions@, id)
                    &&& data_of(old(self).positions@, id).owner != from
                    &&& final(self).positions@ == old(self).positions@
                },
                Err(_) => false,
            },
    {
        match self.find_index(id) {
            Some(i) => {
                let d = self.positions[i];
                if d.owner != from {
                    Err(NftError::NotOwner)
                } else {
                    self.positions.remove(i);
                    Ok(())
                }
            },
            None => Err(NftError::TokenNotFound),
        }
    }
}

} // verus!
