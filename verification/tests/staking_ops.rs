//! End-to-end tests of the staking lifecycle: deposits, claims, unlock
//! requests and withdrawals, with the exact running accumulator sums.

use governance_staking::errors::{NftError, StakingError, TokenError};
use governance_staking::model::WITHDRAW_DELAY;
use governance_staking::staking::Staking;

const ADMIN: u128 = 1;
const TOKEN: u128 = 77;
const ALICE: u128 = 10;
const BOB: u128 = 11;

#[test]
fn scenario_two_deposits_then_claim_tracks_running_sums() {
    // Pool created at t=0 with rate 100 per time unit, zero stake.
    let mut s = Staking::new(ADMIN, 0, TOKEN, 100);
    assert_eq!(s.accumulated_rewards, 0);
    assert_eq!(s.reward_stake_accumulation, 0);
    assert_eq!(s.staked_token_balance, 0);

    // t=10: deposit 1000 (position A = id 1).
    assert_eq!(s.wrap_tokens(ALICE, 10, 1000, None), Ok(()));
    // The advance over [0,10] ran at zero stake: full reward, no exposure.
    assert_eq!(s.accumulated_rewards, 1000);
    assert_eq!(s.reward_stake_accumulation, 0);
    assert_eq!(s.staked_token_balance, 1000);
    assert_eq!(s.lst_accumulation_update, 10);

    // t=20: deposit 500 (position B = id 2).
    assert_eq!(s.wrap_tokens(BOB, 20, 500, None), Ok(()));
    // [10,20] ran with only A staked: 100*10 reward, 1000*10 exposure.
    assert_eq!(s.accumulated_rewards, 2000);
    assert_eq!(s.reward_stake_accumulation, 10000);
    assert_eq!(s.staked_token_balance, 1500);

    // t=30: claim on A. The advance over [20,30] adds 1500*10 = 15000
    // exposure and 100*10 = 1000 reward before the share is computed.
    assert_eq!(s.claim_staking_rewards(30, 1), Ok(()));
    assert_eq!(s.accumulated_rewards, 3000);
    assert_eq!(s.reward_stake_accumulation, 25000);
    // A's stake-time weight since its creation at t=10 is 1000*20 = 20000;
    // its reward is 3000 * 20000 / 25000 = 2400, folded into its weight.
    let a = s.nft.get_governance_data(1).unwrap();
    assert_eq!(a.vote_weight, 3400);
    assert_eq!(s.last_reward_claim.get(&1), Some(&30));
    // The staked balance deliberately does not grow with the claim.
    assert_eq!(s.staked_token_balance, 1500);
}

#[test]
fn claim_at_same_timestamp_adds_nothing() {
    let mut s = Staking::new(ADMIN, 0, TOKEN, 100);
    assert_eq!(s.wrap_tokens(ALICE, 10, 1000, None), Ok(()));
    assert_eq!(s.wrap_tokens(BOB, 20, 500, None), Ok(()));
    assert_eq!(s.claim_staking_rewards(30, 1), Ok(()));
    let weight_after_first = s.nft.get_governance_data(1).unwrap().vote_weight;
    assert_eq!(weight_after_first, 3400);

    // A second claim at the very same timestamp finds zero elapsed time and
    // zero stake-time weight: nothing changes anywhere.
    assert_eq!(s.claim_staking_rewards(30, 1), Ok(()));
    assert_eq!(s.nft.get_governance_data(1).unwrap().vote_weight, 3400);
    assert_eq!(s.accumulated_rewards, 3000);
    assert_eq!(s.reward_stake_accumulation, 25000);
    assert_eq!(s.last_reward_claim.get(&1), Some(&30));
}

#[test]
fn claim_with_no_recorded_exposure_pays_zero() {
    let mut s = Staking::new(ADMIN, 0, TOKEN, 100);
    assert_eq!(s.wrap_tokens(ALICE, 0, 1000, None), Ok(()));
    // No time has passed: the exposure total is still zero, and the share is
    // defined as zero rather than dividing by zero.
    assert_eq!(s.claim_staking_rewards(0, 1), Ok(()));
    assert_eq!(s.nft.get_governance_data(1).unwrap().vote_weight, 1000);
    assert_eq!(s.last_reward_claim.get(&1), Some(&0));
}

#[test]
fn unlock_request_records_principal_plus_reward_and_burns() {
    let mut s = Staking::new(ADMIN, 0, TOKEN, 100);
    assert_eq!(s.wrap_tokens(ALICE, 0, 1000, None), Ok(()));
    assert_eq!(s.create_unwrap_request(ALICE, 5, 1), Ok(()));
    // Advance over [0,5]: reward 500, exposure 5000. A's stake-time weight is
    // 1000*5 = 5000, so its reward is 500*5000/5000 = 500.
    let req = *s.unstake_requests.get(&1).unwrap();
    assert_eq!(req.time, 5);
    assert_eq!(req.token_value, 1500);
    assert_eq!(req.owner, ALICE);
    // The position is burned and its weight left the staked balance.
    assert!(s.nft.get_governance_data(1).is_none());
    assert_eq!(s.staked_token_balance, 0);
}

#[test]
fn withdraw_window_gates_and_consumes_the_request() {
    let mut s = Staking::new(ADMIN, 0, TOKEN, 100);
    assert_eq!(s.wrap_tokens(ALICE, 0, 1000, None), Ok(()));
    assert_eq!(s.create_unwrap_request(ALICE, 5, 1), Ok(()));

    // Before request time + 14 days: rejected, the request stays.
    assert_eq!(
        s.unwrap(ALICE, 5 + WITHDRAW_DELAY - 1, 1),
        Err(StakingError::InvalidTimeWindow)
    );
    assert!(s.unstake_requests.get(&1).is_some());

    // At exactly request time + 14 days: it succeeds once.
    assert_eq!(s.unwrap(ALICE, 5 + WITHDRAW_DELAY, 1), Ok(()));
    assert!(s.unstake_requests.get(&1).is_none());

    // A second withdrawal finds no request.
    assert_eq!(
        s.unwrap(ALICE, 5 + WITHDRAW_DELAY, 1),
        Err(StakingError::Invalid)
    );
}

#[test]
fn withdraw_by_foreign_account_is_unauthorized_whatever_the_clock() {
    let mut s = Staking::new(ADMIN, 0, TOKEN, 100);
    assert_eq!(s.wrap_tokens(ALICE, 0, 1000, None), Ok(()));
    assert_eq!(s.create_unwrap_request(ALICE, 5, 1), Ok(()));

    // Before the window opens.
    assert_eq!(s.unwrap(BOB, 6, 1), Err(StakingError::Unauthorized));
    // Long after it opened.
    assert_eq!(
        s.unwrap(BOB, 5 + 10 * WITHDRAW_DELAY, 1),
        Err(StakingError::Unauthorized)
    );
    // The request is untouched and its owner can still withdraw.
    assert_eq!(s.unwrap(ALICE, 5 + WITHDRAW_DELAY, 1), Ok(()));
}

#[test]
fn excessive_weight_decrease_is_rejected_and_changes_nothing() {
    let mut s = Staking::new(ADMIN, 0, TOKEN, 100);
    assert_eq!(s.wrap_tokens(ALICE, 0, 1000, None), Ok(()));
    assert_eq!(
        s.remove_token_value(3, 1001, 1),
        Err(StakingError::NFTError(NftError::WeightUnderflow))
    );
    // All state, the staked balance included, is as it was.
    assert_eq!(s.staked_token_balance, 1000);
    assert_eq!(s.nft.get_governance_data(1).unwrap().vote_weight, 1000);
    assert_eq!(s.accumulated_rewards, 0);
    assert_eq!(s.reward_stake_accumulation, 0);
    assert_eq!(s.lst_accumulation_update, 0);

    // An amount within the weight goes through.
    assert_eq!(s.remove_token_value(3, 400, 1), Ok(()));
    assert_eq!(s.staked_token_balance, 600);
    assert_eq!(s.nft.get_governance_data(1).unwrap().vote_weight, 600);
}

#[test]
fn staked_balance_matches_sum_of_active_weights() {
    let mut s = Staking::new(ADMIN, 0, TOKEN, 100);
    let sum_of_weights = |s: &Staking| -> u128 {
        s.nft.positions.iter().map(|p| p.vote_weight).sum()
    };

    assert_eq!(s.wrap_tokens(ALICE, 1, 1000, None), Ok(()));
    assert_eq!(s.staked_token_balance, sum_of_weights(&s));
    assert_eq!(s.wrap_tokens(BOB, 2, 500, None), Ok(()));
    assert_eq!(s.staked_token_balance, sum_of_weights(&s));
    assert_eq!(s.add_token_value(3, 250, 2), Ok(()));
    assert_eq!(s.staked_token_balance, sum_of_weights(&s));
    assert_eq!(s.remove_token_value(4, 100, 1), Ok(()));
    assert_eq!(s.staked_token_balance, sum_of_weights(&s));
    assert_eq!(s.create_unwrap_request(BOB, 5, 2), Ok(()));
    assert_eq!(s.staked_token_balance, sum_of_weights(&s));
    assert_eq!(s.staked_token_balance, 900);
}

#[test]
fn accumulators_never_decrease_across_operations() {
    let mut s = Staking::new(ADMIN, 0, TOKEN, 100);
    let mut seen = (0u128, 0u128, 0u64);
    let mut check = |s: &Staking, seen: &mut (u128, u128, u64)| {
        assert!(s.accumulated_rewards >= seen.0);
        assert!(s.reward_stake_accumulation >= seen.1);
        assert!(s.lst_accumulation_update >= seen.2);
        *seen = (
            s.accumulated_rewards,
            s.reward_stake_accumulation,
            s.lst_accumulation_update,
        );
    };

    assert_eq!(s.wrap_tokens(ALICE, 5, 1000, None), Ok(()));
    check(&s, &mut seen);
    assert_eq!(s.wrap_tokens(BOB, 5, 5000, None), Ok(()));
    check(&s, &mut seen);
    assert_eq!(s.add_token_value(5, 200, 1), Ok(()));
    check(&s, &mut seen);
    assert_eq!(s.claim_staking_rewards(9, 1), Ok(()));
    check(&s, &mut seen);
    assert_eq!(s.remove_token_value(14, 300, 1), Ok(()));
    check(&s, &mut seen);
    assert_eq!(s.create_unwrap_request(ALICE, 21, 1), Ok(()));
    check(&s, &mut seen);
    assert_eq!(s.unwrap(ALICE, 21 + WITHDRAW_DELAY, 1), Ok(()));
    check(&s, &mut seen);
    // Failing operations leave the totals in place too.
    assert_eq!(s.claim_staking_rewards(1, 2), Err(StakingError::Invalid));
    check(&s, &mut seen);
}

#[test]
fn deposit_for_a_beneficiary_mints_for_them() {
    let mut s = Staking::new(ADMIN, 0, TOKEN, 100);
    assert_eq!(s.wrap_tokens(ALICE, 0, 700, Some(BOB)), Ok(()));
    let d = s.nft.get_governance_data(1).unwrap();
    assert_eq!(d.owner, BOB);
    assert_eq!(d.vote_weight, 700);
    // Only the beneficiary may request the unlock.
    assert_eq!(
        s.create_unwrap_request(ALICE, 1, 1),
        Err(StakingError::NFTError(NftError::NotOwner))
    );
    assert_eq!(s.create_unwrap_request(BOB, 1, 1), Ok(()));
}

#[test]
fn operations_on_unknown_positions_are_refused() {
    let mut s = Staking::new(ADMIN, 0, TOKEN, 100);
    assert_eq!(
        s.claim_staking_rewards(1, 9),
        Err(StakingError::NFTError(NftError::TokenNotFound))
    );
    assert_eq!(
        s.add_token_value(1, 10, 9),
        Err(StakingError::NFTError(NftError::TokenNotFound))
    );
    assert_eq!(
        s.remove_token_value(1, 10, 9),
        Err(StakingError::NFTError(NftError::TokenNotFound))
    );
    assert_eq!(
        s.create_unwrap_request(ALICE, 1, 9),
        Err(StakingError::NFTError(NftError::TokenNotFound))
    );
    assert_eq!(s.unwrap(ALICE, 1, 9), Err(StakingError::Invalid));
}

#[test]
fn a_clock_running_backwards_is_refused() {
    let mut s = Staking::new(ADMIN, 100, TOKEN, 100);
    assert_eq!(s.wrap_tokens(ALICE, 100, 1000, None), Ok(()));
    assert_eq!(s.wrap_tokens(ALICE, 99, 1000, None), Err(StakingError::Invalid));
    assert_eq!(s.claim_staking_rewards(99, 1), Err(StakingError::Invalid));
    assert_eq!(s.staked_token_balance, 1000);
    assert_eq!(s.lst_accumulation_update, 100);
}

#[test]
fn accumulator_overflow_fails_the_operation() {
    let mut s = Staking::new(ADMIN, 0, TOKEN, u128::MAX);
    // Advancing by two time units would push the reward total past u128.
    assert_eq!(s.wrap_tokens(ALICE, 2, 1000, None), Err(StakingError::Invalid));
    assert_eq!(s.accumulated_rewards, 0);
    assert_eq!(s.staked_token_balance, 0);

    // A deposit past the u128 staked balance is refused too.
    let mut t = Staking::new(ADMIN, 0, TOKEN, 0);
    assert_eq!(t.wrap_tokens(ALICE, 0, u128::MAX, None), Ok(()));
    assert_eq!(t.add_token_value(1, 1, 1), Err(StakingError::Invalid));
    assert_eq!(t.staked_token_balance, u128::MAX);
}

#[test]
fn compounding_lets_a_position_outgrow_the_staked_balance() {
    // After a claim, a position's weight exceeds the balance the pool counts
    // as staked: the engine reproduces that drift rather than correcting it.
    let mut s = Staking::new(ADMIN, 0, TOKEN, 100);
    assert_eq!(s.wrap_tokens(ALICE, 10, 1000, None), Ok(()));
    assert_eq!(s.wrap_tokens(BOB, 20, 500, None), Ok(()));
    assert_eq!(s.claim_staking_rewards(30, 1), Ok(()));
    assert_eq!(s.nft.get_governance_data(1).unwrap().vote_weight, 3400);
    assert_eq!(s.staked_token_balance, 1500);

    // A weight increase that still fits the staked balance but would push the
    // position's weight past u128 is the registry's error, not the pool's.
    assert_eq!(
        s.add_token_value(30, u128::MAX - 2000, 1),
        Err(StakingError::NFTError(NftError::WeightOverflow))
    );
    assert_eq!(s.staked_token_balance, 1500);
    assert_eq!(s.nft.get_governance_data(1).unwrap().vote_weight, 3400);

    // Unlocking the inflated position would drive the staked balance below
    // zero; the operation fails and leaves everything in place.
    assert_eq!(s.create_unwrap_request(ALICE, 30, 1), Err(StakingError::Invalid));
    assert_eq!(s.staked_token_balance, 1500);
    assert!(s.nft.get_governance_data(1).is_some());
}

#[test]
fn token_errors_pass_through_unchanged() {
    // The host wraps what the token collaborator reports; the engine only
    // carries the variant.
    let e = StakingError::TokenError(TokenError::InsufficientBalance);
    assert_ne!(e, StakingError::TokenError(TokenError::InsufficientAllowance));
    assert_ne!(e, StakingError::Invalid);
}
