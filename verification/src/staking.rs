//! The staking controller: the pool state, the claim ledger and the unstake
//! queue, with one verified method per operation. Every method is atomic: it
//! either commits exactly the state its specification function names, or
//! returns the error that function names and leaves the state untouched.
//!
//! Token transfers are the host's part. Before calling `wrap_tokens` or
//! `add_token_value` the host pulls the deposit into custody; after a
//! successful `remove_token_value` or `unwrap` it sends the amount out. If a
//! pull fails the host does not call; if a send fails it restores the state
//! it kept from before the call, so the operation stays atomic end to end.

use std::collections::HashMap;

use vstd::prelude::*;

use crate::errors::{NftError, StakingError};
use crate::model::{
    advance_ok, advanced, add_token_value_spec, claim_staking_rewards_spec,
    create_unwrap_request_spec, remove_token_value_spec, share_ok, share_val, unwrap_spec,
    wrap_tokens_spec, StakingModel, UnstakeRequest,
};
use crate::registry::{
    data_of, has_id, idx_of, lemma_sum_weights_push, lemma_sum_weights_remove,
    lemma_sum_weights_update, AccountId, GovernanceData, GovernanceNft,
};

verus! {

broadcast use vstd::std_specs::hash::group_hash_axioms;

/// The staking engine's state: the reward accumulator, the position registry
/// model, the unstake queue and the claim ledger. It is plain data and can be
/// cloned, so a host that must undo an operation when a token transfer fails
/// keeps the previous value until the transfer settles.
#[derive(Clone)]
pub struct Staking {
    /// The host time at which the pool was created.
    pub creation_time: u64,
    /// The account that created the pool.
    pub owner: AccountId,
    /// The address of the fungible token the pool stakes.
    pub governance_token: AccountId,
    /// The sum of the weights the pool currently counts as staked.
    pub staked_token_balance: u128,
    /// The reward the pool accrues per elapsed unit of host time, fixed at
    /// creation.
    pub rewards_per_second: u128,
    /// The all-time reward pool; never decreases.
    pub accumulated_rewards: u128,
    /// The all-time stake-time exposure; never decreases.
    pub reward_stake_accumulation: u128,
    /// The time of the last accumulator advance.
    pub lst_accumulation_update: u64,
    /// The position registry.
    pub nft: GovernanceNft,
    /// The pending unstake requests, by burned position identifier.
    pub unstake_requests: HashMap<u128, UnstakeRequest>,
    /// The last claim time of each position that ever claimed.
    pub last_reward_claim: HashMap<u128, u64>,
}

impl View for Staking {
    type V = StakingModel;

    open spec fn view(&self) -> StakingModel {
        StakingModel {
            creation_time: self.creation_time,
            owner: self.owner,
            governance_token: self.governance_token,
            staked_token_balance: self.staked_token_balance,
            rewards_per_second: self.rewards_per_second,
            accumulated_rewards: self.accumulated_rewards,
            reward_stake_accumulation: self.reward_stake_accumulation,
            lst_accumulation_update: self.lst_accumulation_update,
            positions: self.nft.positions@,
            next_id: self.nft.next_id,
            unstake_requests: self.unstake_requests@,
            last_reward_claim: self.last_reward_claim@,
        }
    }
}

impl Staking {
    /// A fresh pool created by `caller` at host time `now`, staking the token
    /// at `governance_token` and accruing `interest_rate` reward per elapsed
    /// unit of host time. Nothing is staked, no reward or exposure has
    /// accrued, and the first position minted will carry identifier 1.
    pub fn new(
        caller: AccountId,
        now: u64,
        governance_token: AccountId,
        interest_rate: u128,
    ) -> (r: Staking)
        ensures
            r@.wf(),
            r@.stake_consistent(),
            r@.creation_time == now,
            r@.owner == caller,
            r@.governance_token == governance_token,
            r@.staked_token_balance == 0,
            r@.rewards_per_second == interest_rate,
            r@.accumulated_rewards == 0,
            r@.reward_stake_accumulation == 0,
            r@.lst_accumulation_update == now,
            r@.positions == Seq::<GovernanceData>::empty(),
            r@.next_id == 1,
            r@.unstake_requests == Map::<u128, UnstakeRequest>::empty(),
            r@.last_reward_claim == Map::<u128, u64>::empty(),
    {
        Staking {
            creation_time: now,
            owner: caller,
            governance_token,
            staked_token_balance: 0,
            rewards_per_second: interest_rate,
            accumulated_rewards: 0,
            reward_stake_accumulation: 0,
            lst_accumulation_update: now,
            nft: GovernanceNft::new(),
            unstake_requests: HashMap::new(),
            last_reward_claim: HashMap::new(),
        }
    }

    /// The two accumulator values an advance to `curr_time` would commit,
    /// without committing them; `None` when the advance is impossible.
    fn advanced_values(&self, curr_time: u64) -> (r: Option<(u128, u128)>)
        ensures
            match r {
                Some(v) => {
                    &&& advance_ok(self@, curr_time)
                    &&& v.0 == advanced(self@, curr_time).accumulated_rewards
                    &&& v.1 == advanced(self@, curr_time).reward_stake_accumulation
                },
                None => !advance_ok(self@, curr_time),
            },
    {
        if curr_time < self.lst_accumulation_update {
            return None;
        }
        let dt: u128 = (curr_time - self.lst_accumulation_update) as u128;
        let reward_gain = match self.rewards_per_second.checked_mul(dt) {
            Some(x) => x,
            None => return None,
        };
        let new_rewards = match self.accumulated_rewards.checked_add(reward_gain) {
            Some(x) => x,
            None => return None,
        };
        let exposure_gain = match self.staked_token_balance.checked_mul(dt) {
            Some(x) => x,
            None => return None,
        };
        let new_exposure = match self.reward_stake_accumulation.checked_add(exposure_gain) {
            Some(x) => x,
            None => return None,
        };
        Some((new_rewards, new_exposure))
    }

    /// Advances both accumulators to `curr_time`, before any stake-affecting
    /// mutation of the same operation, so that the elapsed interval is
    /// weighted by the stake level that held during it. Rejected, with
    /// nothing changed, when the clock ran backwards or a total would leave
    /// `u128`.
    pub fn update_stake_accumulation(&mut self, curr_time: u64) -> (r: Result<(), StakingError>)
        ensures
            match r {
                Ok(()) => advance_ok(old(self)@, curr_time) && final(self)@ == advanced(
                    old(self)@,
                    curr_time,
                ),
                Err(e) => {
                    &&& e == StakingError::Invalid
                    &&& !advance_ok(old(self)@, curr_time)
                    &&& final(self)@ == old(self)@
                },
            },
            old(self)@.wf() ==> final(self)@.wf(),
            final(self)@.accumulated_rewards >= old(self)@.accumulated_rewards,
            final(self)@.reward_stake_accumulation >= old(self)@.reward_stake_accumulation,
            final(self)@.lst_accumulation_update >= old(self)@.lst_accumulation_update,
    {
        match self.advanced_values(curr_time) {
            Some(v) => {
                self.accumulated_rewards = v.0;
                self.reward_stake_accumulation = v.1;
                self.lst_accumulation_update = curr_time;
                Ok(())
            },
            None => Err(StakingError::Invalid),
        }
    }

    /// The reward owed for a stake of `stake_balance` held since
    /// `last_update`, as its share of the all-time reward pool in proportion
    /// to the all-time stake-time exposure, truncating. Zero while no
    /// exposure was ever recorded; `None` when a product leaves `u128`.
    pub fn calculate_reward_share(
        &self,
        curr_time: u64,
        last_update: u64,
        stake_balance: u128,
    ) -> (r: Option<u128>)
        requires
            last_update <= curr_time,
        ensures
            match r {
                Some(v) => share_ok(self@, curr_time, last_update, stake_balance) && v == share_val(
                    self@,
                    curr_time,
                    last_update,
                    stake_balance,
                ),
                None => !share_ok(self@, curr_time, last_update, stake_balance),
            },
    {
        let dt: u128 = (curr_time - last_update) as u128;
        let user_weight = match stake_balance.checked_mul(dt) {
            Some(x) => x,
            None => return None,
        };
        if self.reward_stake_accumulation == 0 {
            return Some(0);
        }
        match self.accumulated_rewards.checked_mul(user_weight) {
            Some(product) => Some(product / self.reward_stake_accumulation),
            None => None,
        }
    }

    /// Deposits `token_value`, already pulled into custody by the host, and
    /// mints a position of that weight for `to` (or for the caller): the
    /// accumulators advance, the staked balance grows by the deposit, and the
    /// fresh position records `now` as its creation time. On an error nothing
    /// changes.
    pub fn wrap_tokens(
        &mut self,
        caller: AccountId,
        now: u64,
        token_value: u128,
        to: Option<AccountId>,
    ) -> (r: Result<(), StakingError>)
        requires
            old(self)@.wf(),
        ensures
            final(self)@.wf(),
            match r {
                Ok(()) => wrap_tokens_spec(old(self)@, caller, now, token_value, to)
                    == Ok::<StakingModel, StakingError>(final(self)@),
                Err(e) => wrap_tokens_spec(old(self)@, caller, now, token_value, to)
                    == Err::<StakingModel, StakingError>(e) && final(self)@ == old(self)@,
            },
            old(self)@.stake_consistent() ==> final(self)@.stake_consistent(),
            final(self)@.accumulated_rewards >= old(self)@.accumulated_rewards,
            final(self)@.reward_stake_accumulation >= old(self)@.reward_stake_accumulation,
            final(self)@.lst_accumulation_update >= old(self)@.lst_accumulation_update,
    {
        let saved_rewards = self.accumulated_rewards;
        let saved_exposure = self.reward_stake_accumulation;
        let saved_update = self.lst_accumulation_update;
        match self.update_stake_accumulation(now) {
            Ok(()) => {},
            Err(e) => {
                return Err(e);
            },
        }
        if token_value > u128::MAX - self.staked_token_balance || self.nft.next_id == u128::MAX {
            self.accumulated_rewards = saved_rewards;
            self.reward_stake_accumulation = saved_exposure;
            self.lst_accumulation_update = saved_update;
            return Err(StakingError::Invalid);
        }
        self.staked_token_balance = self.staked_token_balance + token_value;
        let beneficiary = match to {
            Some(a) => a,
            None => caller,
        };
        let _ = self.nft.mint(beneficiary, token_value, now);
        proof {
            lemma_sum_weights_push(
                old(self)@.positions,
                GovernanceData {
                    id: old(self)@.next_id,
                    owner: beneficiary,
                    vote_weight: token_value,
                    block_created: now,
                },
            );
        }
        Ok(())
    }

    /// Grows position `nft_id` by `token_value`, already pulled into custody
    /// by the host: the accumulators advance, the staked balance and the
    /// position's weight both grow by the deposit. On an error nothing
    /// changes.
    pub fn add_token_value(&mut self, now: u64, token_value: u128, nft_id: u128) -> (r: Result<
        (),
        StakingError,
    >)
        requires
            old(self)@.wf(),
        ensures
            final(self)@.wf(),
            match r {
                Ok(()) => add_token_value_spec(old(self)@, now, token_value, nft_id)
                    == Ok::<StakingModel, StakingError>(final(self)@),
                Err(e) => add_token_value_spec(old(self)@, now, token_value, nft_id)
                    == Err::<StakingModel, StakingError>(e) && final(self)@ == old(self)@,
            },
            old(self)@.stake_consistent() ==> final(self)@.stake_consistent(),
            final(self)@.accumulated_rewards >= old(self)@.accumulated_rewards,
            final(self)@.reward_stake_accumulation >= old(self)@.reward_stake_accumulation,
            final(self)@.lst_accumulation_update >= old(self)@.lst_accumulation_update,
    {
        let saved_rewards = self.accumulated_rewards;
        let saved_exposure = self.reward_stake_accumulation;
        let saved_update = self.lst_accumulation_update;
        match self.update_stake_accumulation(now) {
            Ok(()) => {},
            Err(e) => {
                return Err(e);
            },
        }
        if token_value > u128::MAX - self.staked_token_balance {
            self.accumulated_rewards = saved_rewards;
            self.reward_stake_accumulation = saved_exposure;
            self.lst_accumulation_update = saved_update;
            return Err(StakingError::Invalid);
        }
        match self.nft.increment_weight(nft_id, token_value) {
            Ok(()) => {
                self.staked_token_balance = self.staked_token_balance + token_value;
                proof {
                    let s = old(self)@.positions;
                    lemma_sum_weights_update(
                        s,
                        idx_of(s, nft_id),
                        GovernanceData {
                            vote_weight: (data_of(s, nft_id).vote_weight + token_value) as u128,
                            ..data_of(s, nft_id)
                        },
                    );
                }
                Ok(())
            },
            Err(e) => {
                self.accumulated_rewards = saved_rewards;
                self.reward_stake_accumulation = saved_exposure;
                self.lst_accumulation_update = saved_update;
                Err(StakingError::NFTError(e))
            },
        }
    }

    /// Shrinks position `nft_id` by `token_value`: the position's weight
    /// shrinks first, the accumulators advance, the staked balance shrinks,
    /// and the host then sends the amount back to the caller. An amount above
    /// the position's weight is rejected and nothing changes, the staked
    /// balance included.
    pub fn remove_token_value(&mut self, now: u64, token_value: u128, nft_id: u128) -> (r: Result<
        (),
        StakingError,
    >)
        requires
            old(self)@.wf(),
        ensures
            final(self)@.wf(),
            match r {
                Ok(()) => remove_token_value_spec(old(self)@, now, token_value, nft_id)
                    == Ok::<StakingModel, StakingError>(final(self)@),
                Err(e) => remove_token_value_spec(old(self)@, now, token_value, nft_id)
                    == Err::<StakingModel, StakingError>(e) && final(self)@ == old(self)@,
            },
            has_id(old(self)@.positions, nft_id) && token_value > data_of(
                old(self)@.positions,
                nft_id,
            ).vote_weight ==> r == Err::<(), StakingError>(
                StakingError::NFTError(NftError::WeightUnderflow),
            ) && final(self)@ == old(self)@,
            old(self)@.stake_consistent() ==> final(self)@.stake_consistent(),
            final(self)@.accumulated_rewards >= old(self)@.accumulated_rewards,
            final(self)@.reward_stake_accumulation >= old(self)@.reward_stake_accumulation,
            final(self)@.lst_accumulation_update >= old(self)@.lst_accumulation_update,
    {
        let data = match self.nft.get_governance_data(nft_id) {
            Some(d) => d,
            None => {
                return Err(StakingError::NFTError(NftError::TokenNotFound));
            },
        };
        if token_value > data.vote_weight {
            return Err(StakingError::NFTError(NftError::WeightUnderflow));
        }
        let saved_rewards = self.accumulated_rewards;
        let saved_exposure = self.reward_stake_accumulation;
        let saved_update = self.lst_accumulation_update;
        match self.update_stake_accumulation(now) {
            Ok(()) => {},
            Err(e) => {
                return Err(e);
            },
        }
        if token_value > self.staked_token_balance {
            self.accumulated_rewards = saved_rewards;
            self.reward_stake_accumulation = saved_exposure;
            self.lst_accumulation_update = saved_update;
            return Err(StakingError::Invalid);
        }
        let _ = self.nft.decrement_weight(nft_id, token_value);
        self.staked_token_balance = self.staked_token_balance - token_value;
        proof {
            let s = old(self)@.positions;
            lemma_sum_weights_update(
                s,
                idx_of(s, nft_id),
                GovernanceData {
                    vote_weight: (data_of(s, nft_id).vote_weight - token_value) as u128,
                    ..data_of(s, nft_id)
                },
            );
        }
        Ok(())
    }

    /// Claims the reward position `token_id` earned since its last claim (or
    /// its creation) and folds it into the position's weight; no tokens leave
    /// custody. The staked balance deliberately stays as it was, so a claim
    /// makes the position's weight outgrow the balance the pool counts. On an
    /// error nothing changes.
    pub fn claim_staking_rewards(&mut self, now: u64, token_id: u128) -> (r: Result<
        (),
        StakingError,
    >)
        requires
            old(self)@.wf(),
        ensures
            final(self)@.wf(),
            match r {
                Ok(()) => claim_staking_rewards_spec(old(self)@, now, token_id)
                    == Ok::<StakingModel, StakingError>(final(self)@),
                Err(e) => claim_staking_rewards_spec(old(self)@, now, token_id)
                    == Err::<StakingModel, StakingError>(e) && final(self)@ == old(self)@,
            },
            final(self)@.accumulated_rewards >= old(self)@.accumulated_rewards,
            final(self)@.reward_stake_accumulation >= old(self)@.reward_stake_accumulation,
            final(self)@.lst_accumulation_update >= old(self)@.lst_accumulation_update,
    {
        let saved_rewards = self.accumulated_rewards;
        let saved_exposure = self.reward_stake_accumulation;
        let saved_update = self.lst_accumulation_update;
        match self.update_stake_accumulation(now) {
            Ok(()) => {},
            Err(e) => {
                return Err(e);
            },
        }
        let data = match self.nft.get_governance_data(token_id) {
            Some(d) => d,
            None => {
                self.accumulated_rewards = saved_rewards;
                self.reward_stake_accumulation = saved_exposure;
                self.lst_accumulation_update = saved_update;
                return Err(StakingError::NFTError(NftError::TokenNotFound));
            },
        };
        let last_claim = match self.last_reward_claim.get(&token_id) {
            Some(t) => *t,
            None => data.block_created,
        };
        let reward = match self.calculate_reward_share(now, last_claim, data.vote_weight) {
            Some(x) => x,
            None => {
                self.accumulated_rewards = saved_rewards;
                self.reward_stake_accumulation = saved_exposure;
                self.lst_accumulation_update = saved_update;
                return Err(StakingError::Invalid);
            },
        };
        if reward > u128::MAX - data.vote_weight {
            self.accumulated_rewards = saved_rewards;
            self.reward_stake_accumulation = saved_exposure;
            self.lst_accumulation_update = saved_update;
            return Err(StakingError::NFTError(NftError::WeightOverflow));
        }
        self.last_reward_claim.insert(token_id, now);
        let _ = self.nft.increment_weight(token_id, reward);
        Ok(())
    }

    /// Requests the unlock of position `token_id`: the accumulators advance,
    /// the outstanding reward is computed exactly as a claim would, the
    /// staked balance drops by the position's weight, a request for weight
    /// plus reward at `now` is recorded for the caller, and the position is
    /// burned. Only the position's owner may request. On an error nothing
    /// changes.
    pub fn create_unwrap_request(&mut self, caller: AccountId, now: u64, token_id: u128) -> (r:
        Result<(), StakingError>)
        requires
            old(self)@.wf(),
        ensures
            final(self)@.wf(),
            match r {
                Ok(()) => create_unwrap_request_spec(old(self)@, caller, now, token_id)
                    == Ok::<StakingModel, StakingError>(final(self)@),
                Err(e) => create_unwrap_request_spec(old(self)@, caller, now, token_id)
                    == Err::<StakingModel, StakingError>(e) && final(self)@ == old(self)@,
            },
            old(self)@.stake_consistent() ==> final(self)@.stake_consistent(),
            final(self)@.accumulated_rewards >= old(self)@.accumulated_rewards,
            final(self)@.reward_stake_accumulation >= old(self)@.reward_stake_accumulation,
            final(self)@.lst_accumulation_update >= old(self)@.lst_accumulation_update,
    {
        let data = match self.nft.get_governance_data(token_id) {
            Some(d) => d,
            None => {
                return Err(StakingError::NFTError(NftError::TokenNotFound));
            },
        };
        let saved_rewards = self.accumulated_rewards;
        let saved_exposure = self.reward_stake_accumulation;
        let saved_update = self.lst_accumulation_update;
        match self.update_stake_accumulation(now) {
            Ok(()) => {},
            Err(e) => {
                return Err(e);
            },
        }
        let last_claim = match self.last_reward_claim.get(&token_id) {
            Some(t) => *t,
            None => data.block_created,
        };
        let reward = match self.calculate_reward_share(now, last_claim, data.vote_weight) {
            Some(x) => x,
            None => {
                self.accumulated_rewards = saved_rewards;
                self.reward_stake_accumulation = saved_exposure;
                self.lst_accumulation_update = saved_update;
                return Err(StakingError::Invalid);
            },
        };
        if data.vote_weight > self.staked_token_balance || reward > u128::MAX - data.vote_weight {
            self.accumulated_rewards = saved_rewards;
            self.reward_stake_accumulation = saved_exposure;
            self.lst_accumulation_update = saved_update;
            return Err(StakingError::Invalid);
        }
        if data.owner != caller {
            self.accumulated_rewards = saved_rewards;
            self.reward_stake_accumulation = saved_exposure;
            self.lst_accumulation_update = saved_update;
            return Err(StakingError::NFTError(NftError::NotOwner));
        }
        self.staked_token_balance = self.staked_token_balance - data.vote_weight;
        self.unstake_requests.insert(
            token_id,
            UnstakeRequest { time: now, token_value: data.vote_weight + reward, owner: caller },
        );
        let _ = self.nft.burn(caller, token_id);
        proof {
            let s = old(self)@.positions;
            lemma_sum_weights_remove(s, idx_of(s, token_id));
        }
        Ok(())
    }

    /// Withdraws the principal of a pending unstake request: with the
    /// cooling-off period over and the caller the request's owner, the
    /// request is consumed and the host sends its amount to the owner. A
    /// caller other than the owner is turned away with `Unauthorized`
    /// whatever the clock says; a withdrawal before the cooling-off period
    /// elapses fails with `InvalidTimeWindow`; a consumed or never-made
    /// request fails with `Invalid`. On an error nothing changes.
    pub fn unwrap(&mut self, caller: AccountId, now: u64, token_id: u128) -> (r: Result<
        (),
        StakingError,
    >)
        requires
            old(self)@.wf(),
        ensures
            final(self)@.wf(),
            match r {
                Ok(()) => unwrap_spec(old(self)@, caller, now, token_id)
                    == Ok::<StakingModel, StakingError>(final(self)@),
                Err(e) => unwrap_spec(old(self)@, caller, now, token_id)
                    == Err::<StakingModel, StakingError>(e) && final(self)@ == old(self)@,
            },
            old(self)@.unstake_requests.dom().contains(token_id) && old(
                self,
            )@.unstake_requests[token_id].owner != caller ==> r == Err::<(), StakingError>(
                StakingError::Unauthorized,
            ),
            old(self)@.stake_consistent() ==> final(self)@.stake_consistent(),
            final(self)@.accumulated_rewards >= old(self)@.accumulated_rewards,
            final(self)@.reward_stake_accumulation >= old(self)@.reward_stake_accumulation,
            final(self)@.lst_accumulation_update >= old(self)@.lst_accumulation_update,
    {
        let req = match self.unstake_requests.get(&token_id) {
            Some(r) => *r,
            None => {
                return Err(StakingError::Invalid);
            },
        };
        if req.owner != caller {
            return Err(StakingError::Unauthorized);
        }
        if (now as u128) < (req.time as u128) + (crate::model::WITHDRAW_DELAY as u128) {
            return Err(StakingError::InvalidTimeWindow);
        }
        self.unstake_requests.remove(&token_id);
        Ok(())
    }
}

} // verus!
