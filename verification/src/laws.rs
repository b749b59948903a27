//! Cross-operation laws of the engine, stated over the model's transition
//! functions and proved once and for all. Single-operation laws — the staked
//! balance matching the sum of active weights, the accumulators never
//! decreasing, a foreign caller being turned away, an excessive weight
//! decrease changing nothing — stand as `ensures` clauses on the operations
//! themselves.

use vstd::prelude::*;

use crate::errors::StakingError;
use crate::model::{
    claim_reward, claim_staking_rewards_spec, create_unwrap_request_spec, unwrap_spec,
    StakingModel, WITHDRAW_DELAY,
};
use crate::registry::AccountId;

verus! {

/// Claiming is idempotent at a fixed time: once a claim at `now` has
/// committed, a repeated claim at the same `now` computes a zero reward and
/// commits no change at all.
pub proof fn lemma_claim_idempotent_at_same_time(m: StakingModel, now: u64, token_id: u128)
    requires
        m.wf(),
        claim_staking_rewards_spec(m, now, token_id) is Ok,
    ensures
        ({
            let m2 = claim_staking_rewards_spec(m, now, token_id)->Ok_0;
            &&& claim_reward(m2, now, token_id) == 0
            &&& claim_staking_rewards_spec(m2, now, token_id) == Ok::<
                StakingModel,
                StakingError,
            >(m2)
        }),
{
    let m2 = claim_staking_rewards_spec(m, now, token_id)->Ok_0;
    let m1 = crate::model::advanced(m, now);
    let i = crate::registry::idx_of(m1.positions, token_id);
    assert(m2.lst_accumulation_update == now);
    assert(crate::model::elapsed(m2, now) == 0);
    assert(m2.rewards_per_second * crate::model::elapsed(m2, now) == 0);
    assert(crate::model::advanced(m2, now).accumulated_rewards == m2.accumulated_rewards);
    assert(crate::model::advanced(m2, now).reward_stake_accumulation
        == m2.reward_stake_accumulation);
    assert(crate::model::advanced(m2, now) =~= m2);
    assert(m2.positions[i].id == token_id);
    crate::registry::lemma_idx_of(m2.positions, i);
    let w2 = crate::registry::data_of(m2.positions, token_id).vote_weight;
    assert(crate::model::last_claim_of(m2, token_id) == now);
    assert(crate::model::user_stake_weight(now, now, w2) == 0);
    if m2.reward_stake_accumulation != 0 {
        vstd::arithmetic::div_mod::lemma_basic_div(0, m2.reward_stake_accumulation as int);
    }
    assert(crate::model::share_val(m2, now, now, w2) == 0);
    assert(claim_reward(m2, now, token_id) == 0);
    let m3 = claim_staking_rewards_spec(m2, now, token_id)->Ok_0;
    assert(m3.positions =~= m2.positions);
    assert(m3.last_reward_claim =~= m2.last_reward_claim);
    assert(m3 =~= m2);
}

/// The cooling-off window around a withdrawal: once an unlock request at
/// `now_r` has committed, a withdrawal before `now_r` plus the cooling-off
/// period fails with `InvalidTimeWindow`; one at or after that instant
/// succeeds, consumes the request, and every further withdrawal of the same
/// identifier — by anyone, at any time — fails because the request no longer
/// exists.
pub proof fn lemma_withdraw_window(
    m: StakingModel,
    caller: AccountId,
    now_r: u64,
    token_id: u128,
    now_w: u64,
)
    requires
        create_unwrap_request_spec(m, caller, now_r, token_id) is Ok,
    ensures
        ({
            let m2 = create_unwrap_request_spec(m, caller, now_r, token_id)->Ok_0;
            &&& (now_w as int) < now_r + WITHDRAW_DELAY ==> unwrap_spec(m2, caller, now_w, token_id)
                == Err::<StakingModel, StakingError>(StakingError::InvalidTimeWindow)
            &&& (now_w as int) >= now_r + WITHDRAW_DELAY ==> {
                &&& unwrap_spec(m2, caller, now_w, token_id) is Ok
                &&& forall|who: AccountId, later: u64|
                    unwrap_spec(
                        unwrap_spec(m2, caller, now_w, token_id)->Ok_0,
                        who,
                        later,
                        token_id,
                    ) == Err::<StakingModel, StakingError>(StakingError::Invalid)
            }
        }),
{
}

} // verus!
