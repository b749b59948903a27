//! The mathematical model of the staking engine: the state the contracts
//! speak of, and one specification function per operation that says exactly
//! which state an operation commits and which error it returns instead.

use vstd::prelude::*;

use crate::errors::{NftError, StakingError};
use crate::registry::{data_of, has_id, idx_of, sum_weights, unique_ids, AccountId, GovernanceData};

verus! {

/// One day of host time, in milliseconds.
pub const DAY: u64 = 86400 * 1000;

/// The cooling-off period between an unstake request and the earliest time
/// its principal may be withdrawn.
pub const WITHDRAW_DELAY: u64 = 14 * DAY;

/// A pending unstake request: the time it was made, the amount owed
/// (principal plus the reward outstanding at request time), and the account
/// allowed to withdraw it.
#[derive(Debug, Clone, Copy, PartialEq, Eq, Structural)]
pub struct UnstakeRequest {
    /// The host time at which the request was made, in milliseconds.
    pub time: u64,
    /// The amount owed to the owner, in token units.
    pub token_value: u128,
    /// The account that made the request and may withdraw it.
    pub owner: AccountId,
}

/// The whole state of the staking engine, as one mathematical value.
#[verifier::ext_equal]
pub struct StakingModel {
    /// The host time at which the pool was created.
    pub creation_time: u64,
    /// The account that created the pool.
    pub owner: AccountId,
    /// The address of the fungible token the pool stakes.
    pub governance_token: AccountId,
    /// The sum of the weights the pool currently counts as staked.
    pub staked_token_balance: u128,
    /// The reward the pool accrues per elapsed unit of host time, fixed at
    /// creation.
    pub rewards_per_second: u128,
    /// The all-time reward pool: rate times elapsed time, summed over every
    /// advance since creation. Never decreases and is never reset.
    pub accumulated_rewards: u128,
    /// The all-time stake-time exposure: staked balance times elapsed time,
    /// summed over every advance, each interval weighted by the balance that
    /// held before the advance. Never decreases and is never reset.
    pub reward_stake_accumulation: u128,
    /// The time of the last accumulator advance.
    pub lst_accumulation_update: u64,
    /// The active positions, in mint order.
    pub positions: Seq<GovernanceData>,
    /// The identifier the next minted position receives.
    pub next_id: u128,
    /// The pending unstake requests, by the identifier of the burned position.
    pub unstake_requests: Map<u128, UnstakeRequest>,
    /// The last claim time of each position that ever claimed or was
    /// requested for unlock; a position absent here accrues from its
    /// creation time. Entries outlive their positions.
    pub last_reward_claim: Map<u128, u64>,
}

impl StakingModel {
    /// The state's validity: position identifiers are pairwise distinct, all
    /// identifiers ever handed out lie below the next one, a pending request
    /// names no active position, and no recorded time lies in the future of
    /// the last accumulator advance.
    pub open spec fn wf(self) -> bool {
        &&& unique_ids(self.positions)
        &&& forall|i: int|
            0 <= i < self.positions.len() ==> (#[trigger] self.positions[i]).id < self.next_id
        &&& forall|i: int|
            0 <= i < self.positions.len() ==> (#[trigger] self.positions[i]).block_created
                <= self.lst_accumulation_update
        &&& forall|id: u128|
            #[trigger] self.unstake_requests.dom().contains(id) ==> id < self.next_id && !has_id(
                self.positions,
                id,
            )
        &&& forall|id: u128|
            #[trigger] self.last_reward_claim.dom().contains(id) ==> self.last_reward_claim[id]
                <= self.lst_accumulation_update
    }

    /// The staked balance equals the sum of the active positions' weights.
    /// Deposits, weight changes and unlock requests preserve this; a claim
    /// deliberately does not, because it folds the reward into the position's
    /// weight without touching the staked balance.
    pub open spec fn stake_consistent(self) -> bool {
        self.staked_token_balance == sum_weights(self.positions)
    }
}

/// The time since the accumulators were last advanced.
pub open spec fn elapsed(m: StakingModel, now: u64) -> int {
    now - m.lst_accumulation_update
}

/// True when the accumulators can advance to `now`: the clock has not run
/// backwards and both running totals stay within `u128`.
pub open spec fn advance_ok(m: StakingModel, now: u64) -> bool {
    &&& m.lst_accumulation_update <= now
    &&& m.accumulated_rewards + m.rewards_per_second * elapsed(m, now) <= u128::MAX
    &&& m.reward_stake_accumulation + m.staked_token_balance * elapsed(m, now) <= u128::MAX
}

/// The state with both accumulators advanced to `now`: the reward total grows
/// by the rate times the elapsed time, the stake-time total by the
/// pre-advance staked balance times the elapsed time.
pub open spec fn advanced(m: StakingModel, now: u64) -> StakingModel {
    StakingModel {
        accumulated_rewards: (m.accumulated_rewards + m.rewards_per_second * elapsed(m, now)) as u128,
        reward_stake_accumulation: (m.reward_stake_accumulation + m.staked_token_balance * elapsed(
            m,
            now,
        )) as u128,
        lst_accumulation_update: now,
        ..m
    }
}

/// The stake-time weight a holder accrued between the last claim and `now`.
pub open spec fn user_stake_weight(now: u64, last_claim: u64, stake_balance: u128) -> int {
    stake_balance * (now - last_claim)
}

/// True when the reward share can be computed within `u128`.
pub open spec fn share_ok(m: StakingModel, now: u64, last_claim: u64, stake_balance: u128) -> bool {
    &&& user_stake_weight(now, last_claim, stake_balance) <= u128::MAX
    &&& (m.reward_stake_accumulation == 0 || m.accumulated_rewards * user_stake_weight(
        now,
        last_claim,
        stake_balance,
    ) <= u128::MAX)
}

/// The reward owed for the holder's stake-time weight: its share of the
/// all-time reward pool, in proportion to the all-time stake-time exposure of
/// the whole system, with truncating division. Zero while no stake-time
/// exposure was ever recorded.
pub open spec fn share_val(m: StakingModel, now: u64, last_claim: u64, stake_balance: u128) -> int {
    if m.reward_stake_accumulation == 0 {
        0
    } else {
        (m.accumulated_rewards * user_stake_weight(now, last_claim, stake_balance)) / (
        m.reward_stake_accumulation as int)
    }
}

/// The reference time from which position `id` accrues reward: its recorded
/// last claim, or its creation time when it never claimed.
pub open spec fn last_claim_of(m: StakingModel, id: u128) -> u64 {
    if m.last_reward_claim.dom().contains(id) {
        m.last_reward_claim[id]
    } else {
        data_of(m.positions, id).block_created
    }
}

/// What a deposit commits: the host has pulled `token_value` from `caller`
/// into custody; the accumulators advance, the staked balance grows, and a
/// fresh position of that weight is minted for `to` (or for the caller).
pub open spec fn wrap_tokens_spec(
    m: StakingModel,
    caller: AccountId,
    now: u64,
    token_value: u128,
    to: Option<AccountId>,
) -> Result<StakingModel, StakingError> {
    if !advance_ok(m, now) {
        Err(StakingError::Invalid)
    } else {
        let m1 = advanced(m, now);
        if m1.staked_token_balance + token_value > u128::MAX {
            Err(StakingError::Invalid)
        } else if m1.next_id == u128::MAX {
            Err(StakingError::Invalid)
        } else {
            let beneficiary = match to {
                Some(a) => a,
                None => caller,
            };
            Ok(
                StakingModel {
                    staked_token_balance: (m1.staked_token_balance + token_value) as u128,
                    positions: m1.positions.push(
                        GovernanceData {
                            id: m1.next_id,
                            owner: beneficiary,
                            vote_weight: token_value,
                            block_created: now,
                        },
                    ),
                    next_id: (m1.next_id + 1) as u128,
                    ..m1
                },
            )
        }
    }
}

/// What a weight increase commits: the host has pulled `token_value` from the
/// caller; the accumulators advance, the staked balance grows, and the
/// position's weight grows by the same amount.
pub open spec fn add_token_value_spec(
    m: StakingModel,
    now: u64,
    token_value: u128,
    nft_id: u128,
) -> Result<StakingModel, StakingError> {
    if !advance_ok(m, now) {
        Err(StakingError::Invalid)
    } else {
        let m1 = advanced(m, now);
        if m1.staked_token_balance + token_value > u128::MAX {
            Err(StakingError::Invalid)
        } else if !has_id(m1.positions, nft_id) {
            Err(StakingError::NFTError(NftError::TokenNotFound))
        } else {
            let d = data_of(m1.positions, nft_id);
            if d.vote_weight + token_value > u128::MAX {
                Err(StakingError::NFTError(NftError::WeightOverflow))
            } else {
                Ok(
                    StakingModel {
                        staked_token_balance: (m1.staked_token_balance + token_value) as u128,
                        positions: m1.positions.update(
                            idx_of(m1.positions, nft_id),
                            GovernanceData {
                                vote_weight: (d.vote_weight + token_value) as u128,
                                ..d
                            },
                        ),
                        ..m1
                    },
                )
            }
        }
    }
}

/// What a weight decrease commits: the position's weight shrinks first, the
/// accumulators advance, the staked balance shrinks, and the host then sends
/// `token_value` back to the caller. An amount above the position's weight is
/// rejected outright and nothing changes.
pub open spec fn remove_token_value_spec(
    m: StakingModel,
    now: u64,
    token_value: u128,
    nft_id: u128,
) -> Result<StakingModel, StakingError> {
    if !has_id(m.positions, nft_id) {
        Err(StakingError::NFTError(NftError::TokenNotFound))
    } else if token_value > data_of(m.positions, nft_id).vote_weight {
        Err(StakingError::NFTError(NftError::WeightUnderflow))
    } else if !advance_ok(m, now) {
        Err(StakingError::Invalid)
    } else {
        let m1 = advanced(m, now);
        if token_value > m1.staked_token_balance {
            Err(StakingError::Invalid)
        } else {
            let d = data_of(m1.positions, nft_id);
            Ok(
                StakingModel {
                    staked_token_balance: (m1.staked_token_balance - token_value) as u128,
                    positions: m1.positions.update(
                        idx_of(m1.positions, nft_id),
                        GovernanceData { vote_weight: (d.vote_weight - token_value) as u128, ..d },
                    ),
                    ..m1
                },
            )
        }
    }
}

/// The reward a claim at `now` would fold into position `id`.
pub open spec fn claim_reward(m: StakingModel, now: u64, token_id: u128) -> int {
    share_val(
        advanced(m, now),
        now,
        last_claim_of(advanced(m, now), token_id),
        data_of(advanced(m, now).positions, token_id).vote_weight,
    )
}

/// What a claim commits: the accumulators advance, the reward share since the
/// position's last claim is folded into its weight (compounding, no tokens
/// leave custody), and `now` becomes its last claim time. The staked balance
/// deliberately stays as it was, even though the position's weight grew.
pub open spec fn claim_staking_rewards_spec(
    m: StakingModel,
    now: u64,
    token_id: u128,
) -> Result<StakingModel, StakingError> {
    if !advance_ok(m, now) {
        Err(StakingError::Invalid)
    } else {
        let m1 = advanced(m, now);
        if !has_id(m1.positions, token_id) {
            Err(StakingError::NFTError(NftError::TokenNotFound))
        } else {
            let d = data_of(m1.positions, token_id);
            let lc = last_claim_of(m1, token_id);
            if !share_ok(m1, now, lc, d.vote_weight) {
                Err(StakingError::Invalid)
            } else {
                let reward = share_val(m1, now, lc, d.vote_weight);
                if d.vote_weight + reward > u128::MAX {
                    Err(StakingError::NFTError(NftError::WeightOverflow))
                } else {
                    Ok(
                        StakingModel {
                            positions: m1.positions.update(
                                idx_of(m1.positions, token_id),
                                GovernanceData {
                                    vote_weight: (d.vote_weight + reward) as u128,
                                    ..d
                                },
                            ),
                            last_reward_claim: m1.last_reward_claim.insert(token_id, now),
                            ..m1
                        },
                    )
                }
            }
        }
    }
}

/// What an unlock request commits: the accumulators advance, the position's
/// outstanding reward is computed as a claim would, the staked balance drops
/// by the position's weight, a request for weight plus reward is recorded for
/// the caller, and the position is burned. Only the position's owner may
/// request.
pub open spec fn create_unwrap_request_spec(
    m: StakingModel,
    caller: AccountId,
    now: u64,
    token_id: u128,
) -> Result<StakingModel, StakingError> {
    if !has_id(m.positions, token_id) {
        Err(StakingError::NFTError(NftError::TokenNotFound))
    } else if !advance_ok(m, now) {
        Err(StakingError::Invalid)
    } else {
        let m1 = advanced(m, now);
        let d = data_of(m1.positions, token_id);
        let lc = last_claim_of(m1, token_id);
        if !share_ok(m1, now, lc, d.vote_weight) {
            Err(StakingError::Invalid)
        } else {
            let reward = share_val(m1, now, lc, d.vote_weight);
            if d.vote_weight > m1.staked_token_balance {
                Err(StakingError::Invalid)
            } else if d.vote_weight + reward > u128::MAX {
                Err(StakingError::Invalid)
            } else if d.owner != caller {
                Err(StakingError::NFTError(NftError::NotOwner))
            } else {
                Ok(
                    StakingModel {
                        staked_token_balance: (m1.staked_token_balance - d.vote_weight) as u128,
                        positions: m1.positions.remove(idx_of(m1.positions, token_id)),
                        unstake_requests: m1.unstake_requests.insert(
                            token_id,
                            UnstakeRequest {
                                time: now,
                                token_value: (d.vote_weight + reward) as u128,
                                owner: caller,
                            },
                        ),
                        ..m1
                    },
                )
            }
        }
    }
}

/// What a withdrawal commits: with the cooling-off period over and the caller
/// the request's owner, the request is consumed and the host sends its amount
/// to the owner. The owner check comes first: a foreign caller is turned away
/// whatever the clock says.
pub open spec fn unwrap_spec(
    m: StakingModel,
    caller: AccountId,
    now: u64,
    token_id: u128,
) -> Result<StakingModel, StakingError> {
    if !m.unstake_requests.dom().contains(token_id) {
        Err(StakingError::Invalid)
    } else {
        let req = m.unstake_requests[token_id];
        if req.owner != caller {
            Err(StakingError::Unauthorized)
        } else if (now as int) < req.time + WITHDRAW_DELAY {
            Err(StakingError::InvalidTimeWindow)
        } else {
            Ok(StakingModel { unstake_requests: m.unstake_requests.remove(token_id), ..m })
        }
    }
}

} // verus!
