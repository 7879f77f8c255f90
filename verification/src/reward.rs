use vstd::prelude::*;

use crate::decimal::Decimal;
use crate::error::ContractError;
use crate::model::{spec_advance, spec_settle, StateV};
use crate::state::{Config, StakerInfo, State};

verus! {

/// Advance the global reward index from `state.last_distributed` to
/// `block_time` (the reward index engine): each schedule entry overlapping
/// the window contributes its emission over the overlap, divided by the
/// total stake, to its denomination's index. With zero total stake only
/// `last_distributed` moves. On failure the state is untouched.
pub fn compute_reward(config: &Config, state: &mut State, block_time: u64) -> (r: Result<
    (),
    ContractError,
>)
    ensures
        match spec_advance(config@, old(state)@, block_time) {
            Ok(sv) => r is Ok && final(state)@ == sv,
            Err(e) => r == Err::<(), ContractError>(e) && *final(state) == *old(state),
        },
        old(state).wf() ==> final(state).wf(),
{
    if state.total_stake_amount == 0 {
        state.last_distributed = block_time;
        return Ok(());
    }
    let total = state.total_stake_amount;
    let ghost scheds = config@.distribution_schedule;
    let ghost last0 = state.last_distributed;
    let ghost target = crate::model::advance_seq(
        scheds,
        last0,
        block_time,
        total,
        old(state).reward_index@,
    );

    let mut idx = state.reward_index.duplicate();
    proof {
        assert(scheds.skip(0) =~= scheds);
    }
    let n = config.distribution_schedule.len();
    let mut i: usize = 0;
    while i < n
        invariant
            *state == *old(state),
            state.total_stake_amount == total,
            total != 0,
            n == scheds.len(),
            scheds == config@.distribution_schedule,
            last0 == state.last_distributed,
            0 <= i <= n,
            old(state).wf() ==> idx.wf(),
            target == crate::model::advance_seq(
                scheds,
                last0,
                block_time,
                total,
                old(state).reward_index@,
            ),
            crate::model::advance_seq(
                scheds.skip(i as int),
                last0,
                block_time,
                total,
                idx@,
            ) == target,
        decreases n - i,
    {
        proof {
            assert(scheds.skip(i as int).first() == scheds[i as int]);
            assert(scheds.skip(i as int).drop_first() =~= scheds.skip(i + 1));
        }
        let s = &config.distribution_schedule[i];
        if !(s.0 > block_time || s.1 < state.last_distributed) {
            let hi: u64 = if s.1 < block_time {
                s.1
            } else {
                block_time
            };
            let lo: u64 = if s.0 > state.last_distributed {
                s.0
            } else {
                state.last_distributed
            };
            if hi < lo {
                return Err(ContractError::Arithmetic);
            }
            let passed: u64 = hi - lo;
            // active and non-negative overlap force a non-negative duration
            assert(s.1 >= s.0);
            let time: u64 = s.1 - s.0;
            let rate = match Decimal::from_ratio(s.2, time as u128) {
                Ok(rate) => rate,
                Err(e) => {
                    return Err(e);
                },
            };
            let reward = match rate.mul_floor(passed as u128) {
                Ok(reward) => reward,
                Err(e) => {
                    return Err(e);
                },
            };
            let delta = match Decimal::from_ratio(reward, total) {
                Ok(delta) => delta,
                Err(e) => {
                    return Err(e);
                },
            };
            let current = match idx.get(&s.3) {
                Some(d) => d,
                None => Decimal::zero(),
            };
            let accumulated = match current.checked_add(delta) {
                Ok(accumulated) => accumulated,
                Err(e) => {
                    return Err(e);
                },
            };
            idx.set(&s.3, accumulated);
        }
        i += 1;
    }
    proof {
        assert(scheds.skip(n as int) =~= Seq::<(u64, u64, u128, String)>::empty());
    }
    state.reward_index = idx;
    state.last_distributed = block_time;
    Ok(())
}

/// Settle one staker against the current global index (the staker
/// settlement engine): for every denomination the global index knows, credit
/// `floor(stake * index) - floor(stake * snapshot)` as pending reward and
/// move the snapshot up to the global value. On failure the staker is
/// untouched.
pub fn compute_staker_reward(state: &State, staker_info: &mut StakerInfo) -> (r: Result<
    (),
    ContractError,
>)
    ensures
        match spec_settle(state@, old(staker_info)@) {
            Ok(uv) => r is Ok && final(staker_info)@ == uv,
            Err(e) => r == Err::<(), ContractError>(e) && *final(staker_info) == *old(staker_info),
        },
        old(staker_info).wf() ==> final(staker_info).wf(),
{
    let stake = staker_info.stake_amount;
    let ghost g = state.reward_index@;
    let ghost target = crate::model::settle_seq(
        g,
        stake,
        old(staker_info).reward_index@,
        old(staker_info).pending_reward@,
    );

    let mut ri = staker_info.reward_index.duplicate();
    let mut pending = staker_info.pending_reward.duplicate();
    proof {
        assert(g.skip(0) =~= g);
    }
    let n = state.reward_index.entries.len();
    let mut i: usize = 0;
    while i < n
        invariant
            *staker_info == *old(staker_info),
            stake == staker_info.stake_amount,
            n == g.len(),
            g == state.reward_index@,
            0 <= i <= n,
            old(staker_info).wf() ==> ri.wf() && pending.wf(),
            target == crate::model::settle_seq(
                g,
                stake,
                old(staker_info).reward_index@,
                old(staker_info).pending_reward@,
            ),
            crate::model::settle_seq(g.skip(i as int), stake, ri@, pending@) == target,
        decreases n - i,
    {
        proof {
            assert(g.skip(i as int).first() == g[i as int]);
            assert(g.skip(i as int).drop_first() =~= g.skip(i + 1));
        }
        let d = &state.reward_index.entries[i];
        let earned = match d.1.mul_floor(stake) {
            Ok(earned) => earned,
            Err(e) => {
                return Err(e);
            },
        };
        let snapshot = match ri.get(&d.0) {
            Some(v) => v,
            None => Decimal::zero(),
        };
        let snapped = match snapshot.mul_floor(stake) {
            Ok(snapped) => snapped,
            Err(e) => {
                return Err(e);
            },
        };
        if earned < snapped {
            return Err(ContractError::Arithmetic);
        }
        let accrued = earned - snapped;
        let base = match pending.get(&d.0) {
            Some(v) => v,
            None => 0,
        };
        let credited = match base.checked_add(accrued) {
            Some(credited) => credited,
            None => {
                return Err(ContractError::Arithmetic);
            },
        };
        ri.set(&d.0, d.1);
        pending.set(&d.0, credited);
        i += 1;
    }
    proof {
        assert(g.skip(n as int) =~= Seq::<(String, Decimal)>::empty());
    }
    staker_info.reward_index = ri;
    staker_info.pending_reward = pending;
    Ok(())
}

} // verus!
