use vstd::prelude::*;

use crate::decimal::{spec_dec_add, spec_from_ratio, spec_mul_floor, Decimal};
use crate::denoms::{keys_unique, lookup_or, set_entry};
use crate::error::ContractError;
use crate::msg::{
    Coin, ConfigResponse, ExecuteMsg, StakerInfoResponse, StateResponse, TransferMsg, Unlock,
};
use crate::state::{Config, StakerInfo, State};

verus! {

/// Ghost mirror of `Config`.
pub struct ConfigV {
    pub owner: String,
    pub kart_denom: String,
    pub unlock_time: u64,
    pub distribution_schedule: Seq<(u64, u64, u128, String)>,
}

/// Ghost mirror of `State`.
pub struct StateV {
    pub total_staker: u64,
    pub total_stake_amount: u128,
    pub last_distributed: u64,
    pub reward_index: Seq<(String, Decimal)>,
    pub reward_distributed: Seq<(String, u128)>,
}

/// Ghost mirror of `StakerInfo`.
pub struct StakerV {
    pub stake_amount: u128,
    pub pending_reward: Seq<(String, u128)>,
    pub reward_index: Seq<(String, Decimal)>,
    pub reward_claimed: Seq<(String, u128)>,
    pub unlock: Option<Seq<Unlock>>,
}

/// Ghost mirror of `TransferMsg`.
pub struct TransferV {
    pub to_address: String,
    pub amount: Seq<Coin>,
}

/// Everything an action decides: the records as they must be written back
/// (`staker == None` means the record is deleted) and the transfer
/// instructions to issue.
pub struct OutcomeV {
    pub config: ConfigV,
    pub state: StateV,
    pub staker: Option<StakerV>,
    pub messages: Seq<TransferV>,
}

impl View for Config {
    type V = ConfigV;

    open spec fn view(&self) -> ConfigV {
        ConfigV {
            owner: self.owner,
            kart_denom: self.kart_denom,
            unlock_time: self.unlock_time,
            distribution_schedule: self.distribution_schedule@,
        }
    }
}

impl View for State {
    type V = StateV;

    open spec fn view(&self) -> StateV {
        StateV {
            total_staker: self.total_staker,
            total_stake_amount: self.total_stake_amount,
            last_distributed: self.last_distributed,
            reward_index: self.reward_index@,
            reward_distributed: self.reward_distributed@,
        }
    }
}

impl View for StakerInfo {
    type V = StakerV;

    open spec fn view(&self) -> StakerV {
        StakerV {
            stake_amount: self.stake_amount,
            pending_reward: self.pending_reward@,
            reward_index: self.reward_index@,
            reward_claimed: self.reward_claimed@,
            unlock: match self.unlock {
                Some(v) => Some(v@),
                None => None,
            },
        }
    }
}

impl View for TransferMsg {
    type V = TransferV;

    open spec fn view(&self) -> TransferV {
        TransferV { to_address: self.to_address, amount: self.amount@ }
    }
}

impl View for ConfigResponse {
    type V = ConfigV;

    open spec fn view(&self) -> ConfigV {
        ConfigV {
            owner: self.owner,
            kart_denom: self.kart_denom,
            unlock_time: self.unlock_time,
            distribution_schedule: self.distribution_schedule@,
        }
    }
}

impl View for StateResponse {
    type V = StateV;

    open spec fn view(&self) -> StateV {
        StateV {
            total_staker: self.total_staker,
            total_stake_amount: self.total_stake_amount,
            last_distributed: self.last_distributed,
            reward_index: self.reward_index@,
            reward_distributed: self.reward_distributed@,
        }
    }
}

impl View for StakerInfoResponse {
    type V = StakerV;

    open spec fn view(&self) -> StakerV {
        StakerV {
            stake_amount: self.stake_amount,
            pending_reward: self.pending_reward@,
            reward_index: self.reward_index@,
            reward_claimed: self.reward_claimed@,
            unlock: match self.unlock {
                Some(v) => Some(v@),
                None => None,
            },
        }
    }
}

/// The views of a list of transfer instructions.
pub open spec fn transfers_view(v: Seq<TransferMsg>) -> Seq<TransferV> {
    v.map_values(|m: TransferMsg| m@)
}

impl StateV {
    pub open spec fn wf(&self) -> bool {
        keys_unique(self.reward_index) && keys_unique(self.reward_distributed)
    }
}

impl StakerV {
    pub open spec fn wf(&self) -> bool {
        keys_unique(self.pending_reward) && keys_unique(self.reward_index) && keys_unique(
            self.reward_claimed,
        )
    }
}

/// The zero decimal, for absent snapshot entries.
pub open spec fn dec_zero() -> Decimal {
    Decimal { atomics: 0 }
}

// ---------------------------------------------------------------------------
// Reward index engine (one schedule entry at a time)
// ---------------------------------------------------------------------------
/// One schedule entry's contribution to the global index for the accrual
/// interval `[last, now]`, with `total > 0` staked units.
///
/// An entry whose window misses the interval contributes nothing. Otherwise
/// its per-second emission rate is `amount / (end - start)` as a fixed-point
/// ratio; the reward emitted over the overlap is divided by the total stake
/// and accumulated into the entry's denomination. A clock that ran backwards
/// shows up as a negative overlap and fails, as does a schedule with
/// `end <= start` and any intermediate that leaves the `u128` range.
pub open spec fn sched_step(
    s: (u64, u64, u128, String),
    last: u64,
    now: u64,
    total: u128,
    idx: Seq<(String, Decimal)>,
) -> Result<Seq<(String, Decimal)>, ContractError> {
    if s.0 > now || s.1 < last {
        Ok(idx)
    } else {
        let hi: int = if s.1 < now { s.1 as int } else { now as int };
        let lo: int = if s.0 > last { s.0 as int } else { last as int };
        if hi < lo {
            Err(ContractError::Arithmetic)
        } else {
            let passed: u128 = (hi - lo) as u128;
            match spec_from_ratio(s.2, (s.1 - s.0) as u128) {
                Err(e) => Err(e),
                Ok(rate) => match spec_mul_floor(passed, rate) {
                    Err(e) => Err(e),
                    Ok(reward) => match spec_from_ratio(reward, total) {
                        Err(e) => Err(e),
                        Ok(delta) => match spec_dec_add(
                            lookup_or(idx, s.3@, dec_zero()),
                            delta,
                        ) {
                            Err(e) => Err(e),
                            Ok(accumulated) => Ok(set_entry(idx, s.3, accumulated)),
                        },
                    },
                },
            }
        }
    }
}

/// Fold of `sched_step` over a schedule list, in list order.
pub open spec fn advance_seq(
    scheds: Seq<(u64, u64, u128, String)>,
    last: u64,
    now: u64,
    total: u128,
    idx: Seq<(String, Decimal)>,
) -> Result<Seq<(String, Decimal)>, ContractError>
    decreases scheds.len(),
{
    if scheds.len() == 0 {
        Ok(idx)
    } else {
        match sched_step(scheds.first(), last, now, total, idx) {
            Err(e) => Err(e),
            Ok(idx2) => advance_seq(scheds.drop_first(), last, now, total, idx2),
        }
    }
}

/// Advance the global reward index from `last_distributed` to `now`.
///
/// With nothing staked there is nobody to distribute to: no index moves,
/// only `last_distributed`, and rewards scheduled over such a window are
/// gone for good. Otherwise every schedule entry overlapping the window
/// contributes. `last_distributed` becomes `now` unconditionally.
pub open spec fn spec_advance(c: ConfigV, s: StateV, now: u64) -> Result<StateV, ContractError> {
    if s.total_stake_amount == 0 {
        Ok(
            StateV {
                total_staker: s.total_staker,
                total_stake_amount: s.total_stake_amount,
                last_distributed: now,
                reward_index: s.reward_index,
                reward_distributed: s.reward_distributed,
            },
        )
    } else {
        match advance_seq(
            c.distribution_schedule,
            s.last_distributed,
            now,
            s.total_stake_amount,
            s.reward_index,
        ) {
            Err(e) => Err(e),
            Ok(ri) => Ok(
                StateV {
                    total_staker: s.total_staker,
                    total_stake_amount: s.total_stake_amount,
                    last_distributed: now,
                    reward_index: ri,
                    reward_distributed: s.reward_distributed,
                },
            ),
        }
    }
}

// ---------------------------------------------------------------------------
// Staker settlement engine
// ---------------------------------------------------------------------------
/// Settle one global index entry `d` against a staker's snapshot and pending
/// rewards: credit `floor(stake * index) - floor(stake * snapshot)` into
/// pending and move the snapshot up to the global value. A snapshot above
/// the global index is an underflow and fails (it cannot happen while the
/// index only grows).
pub open spec fn settle_step(
    d: (String, Decimal),
    stake: u128,
    ri: Seq<(String, Decimal)>,
    pending: Seq<(String, u128)>,
) -> Result<(Seq<(String, Decimal)>, Seq<(String, u128)>), ContractError> {
    match spec_mul_floor(stake, d.1) {
        Err(e) => Err(e),
        Ok(earned) => match spec_mul_floor(stake, lookup_or(ri, d.0@, dec_zero())) {
            Err(e) => Err(e),
            Ok(snapped) => if earned < snapped {
                Err(ContractError::Arithmetic)
            } else {
                let accrued: u128 = (earned - snapped) as u128;
                if lookup_or(pending, d.0@, 0u128) + accrued > u128::MAX {
                    Err(ContractError::Arithmetic)
                } else {
                    Ok(
                        (
                            set_entry(ri, d.0, d.1),
                            set_entry(
                                pending,
                                d.0,
                                (lookup_or(pending, d.0@, 0u128) + accrued) as u128,
                            ),
                        ),
                    )
                }
            },
        },
    }
}

/// Fold of `settle_step` over the global index entries, in entry order.
pub open spec fn settle_seq(
    g: Seq<(String, Decimal)>,
    stake: u128,
    ri: Seq<(String, Decimal)>,
    pending: Seq<(String, u128)>,
) -> Result<(Seq<(String, Decimal)>, Seq<(String, u128)>), ContractError>
    decreases g.len(),
{
    if g.len() == 0 {
        Ok((ri, pending))
    } else {
        match settle_step(g.first(), stake, ri, pending) {
            Err(e) => Err(e),
            Ok((ri2, pending2)) => settle_seq(g.drop_first(), stake, ri2, pending2),
        }
    }
}

/// Reconcile a staker against the current global index: for every
/// denomination the global index knows, credit the accrued difference and
/// checkpoint the snapshot. Denominations the global index does not know are
/// untouched, as are stake, claimed totals and the unlock queue.
pub open spec fn spec_settle(s: StateV, u: StakerV) -> Result<StakerV, ContractError> {
    match settle_seq(s.reward_index, u.stake_amount, u.reward_index, u.pending_reward) {
        Err(e) => Err(e),
        Ok((ri, pending)) => Ok(
            StakerV {
                stake_amount: u.stake_amount,
                pending_reward: pending,
                reward_index: ri,
                reward_claimed: u.reward_claimed,
                unlock: u.unlock,
            },
        ),
    }
}

// ---------------------------------------------------------------------------
// Stake lifecycle
// ---------------------------------------------------------------------------
/// The configuration and state a fresh instantiation persists.
pub open spec fn spec_instantiate(
    sender: String,
    kart_denom: String,
    unlock_time: u64,
    distribution_schedule: Seq<(u64, u64, u128, String)>,
) -> (ConfigV, StateV) {
    (
        ConfigV { owner: sender, kart_denom, unlock_time, distribution_schedule },
        StateV {
            total_staker: 0,
            total_stake_amount: 0,
            last_distributed: 0,
            reward_index: Seq::empty(),
            reward_distributed: Seq::empty(),
        },
    )
}

/// Stake the single fund of the configured denomination: count a first-time
/// staker, advance the index to `now`, settle the staker against the
/// pre-increase stake, then grow both stake totals. Settling first is what
/// keeps freshly staked principal from earning rewards retroactively.
pub open spec fn spec_stake(
    c: ConfigV,
    s: StateV,
    u: StakerV,
    funds: Seq<Coin>,
    now: u64,
) -> Result<(StateV, StakerV), ContractError> {
    if !(funds.len() == 1 && funds[0].denom@ == c.kart_denom@) {
        Err(ContractError::UnsupportedToken)
    } else if funds[0].amount == 0 {
        Err(ContractError::InvalidAmount)
    } else {
        let amount = funds[0].amount;
        if u.stake_amount == 0 && s.total_staker == u64::MAX {
            Err(ContractError::Arithmetic)
        } else {
            let s0 = StateV {
                total_staker: if u.stake_amount == 0 {
                    (s.total_staker + 1) as u64
                } else {
                    s.total_staker
                },
                total_stake_amount: s.total_stake_amount,
                last_distributed: s.last_distributed,
                reward_index: s.reward_index,
                reward_distributed: s.reward_distributed,
            };
            match spec_advance(c, s0, now) {
                Err(e) => Err(e),
                Ok(s1) => match spec_settle(s1, u) {
                    Err(e) => Err(e),
                    Ok(u1) => if s1.total_stake_amount + amount > u128::MAX || u1.stake_amount
                        + amount > u128::MAX {
                        Err(ContractError::Arithmetic)
                    } else {
                        Ok(
                            (
                                StateV {
                                    total_staker: s1.total_staker,
                                    total_stake_amount: (s1.total_stake_amount + amount) as u128,
                                    last_distributed: s1.last_distributed,
                                    reward_index: s1.reward_index,
                                    reward_distributed: s1.reward_distributed,
                                },
                                StakerV {
                                    stake_amount: (u1.stake_amount + amount) as u128,
                                    pending_reward: u1.pending_reward,
                                    reward_index: u1.reward_index,
                                    reward_claimed: u1.reward_claimed,
                                    unlock: u1.unlock,
                                },
                            ),
                        )
                    },
                },
            }
        }
    }
}

/// Unstake `amount`: advance, settle on the pre-decrease stake, shrink both
/// stake totals, queue `{amount, now + unlock_time}`, and uncount a staker
/// whose stake reaches zero. Principal is not transferred yet, only queued.
pub open spec fn spec_unstake(
    c: ConfigV,
    s: StateV,
    u: StakerV,
    amount: u128,
    now: u64,
) -> Result<(StateV, StakerV), ContractError> {
    if u.stake_amount < amount {
        Err(ContractError::InsufficientToken)
    } else {
        match spec_advance(c, s, now) {
            Err(e) => Err(e),
            Ok(s1) => match spec_settle(s1, u) {
                Err(e) => Err(e),
                Ok(u1) => if now + c.unlock_time > u64::MAX || s1.total_stake_amount < amount {
                    Err(ContractError::Arithmetic)
                } else {
                    let new_stake = (u1.stake_amount - amount) as u128;
                    if new_stake == 0 && s1.total_staker == 0 {
                        Err(ContractError::Arithmetic)
                    } else {
                        let entry = Unlock { amount, at: (now + c.unlock_time) as u64 };
                        let queue = match u1.unlock {
                            Some(list) => list.push(entry),
                            None => seq![entry],
                        };
                        Ok(
                            (
                                StateV {
                                    total_staker: if new_stake == 0 {
                                        (s1.total_staker - 1) as u64
                                    } else {
                                        s1.total_staker
                                    },
                                    total_stake_amount: (s1.total_stake_amount - amount) as u128,
                                    last_distributed: s1.last_distributed,
                                    reward_index: s1.reward_index,
                                    reward_distributed: s1.reward_distributed,
                                },
                                StakerV {
                                    stake_amount: new_stake,
                                    pending_reward: u1.pending_reward,
                                    reward_index: u1.reward_index,
                                    reward_claimed: u1.reward_claimed,
                                    unlock: Some(queue),
                                },
                            ),
                        )
                    }
                },
            },
        }
    }
}

/// Add every nonzero pending reward into the claimed totals, skipping zero
/// entries so none is ever created in the claimed map; fails when a running
/// total would leave the `u128` range.
pub open spec fn merge_claimed(
    claimed: Seq<(String, u128)>,
    pending: Seq<(String, u128)>,
) -> Result<Seq<(String, u128)>, ContractError>
    decreases pending.len(),
{
    if pending.len() == 0 {
        Ok(claimed)
    } else {
        let p = pending.first();
        if p.1 == 0 {
            merge_claimed(claimed, pending.drop_first())
        } else if lookup_or(claimed, p.0@, 0u128) + p.1 > u128::MAX {
            Err(ContractError::Arithmetic)
        } else {
            merge_claimed(
                set_entry(claimed, p.0, (lookup_or(claimed, p.0@, 0u128) + p.1) as u128),
                pending.drop_first(),
            )
        }
    }
}

/// The coins a claim pays out: one per pending entry with a nonzero amount,
/// in entry order. Zero amounts are settled bookkeeping, not a payout, and
/// carry no coin.
pub open spec fn coins_of(pending: Seq<(String, u128)>) -> Seq<Coin>
    decreases pending.len(),
{
    if pending.len() == 0 {
        Seq::empty()
    } else {
        let rest = coins_of(pending.drop_first());
        if pending.first().1 > 0 {
            seq![Coin { denom: pending.first().0, amount: pending.first().1 }] + rest
        } else {
            rest
        }
    }
}

/// Claim all pending rewards: advance, settle, move every nonzero pending
/// amount into the cumulative claimed totals, and pay those amounts out in
/// one multi-coin transfer (of no coins at all when nothing nonzero is
/// pending: an empty claim is a valid no-op).
pub open spec fn spec_claim(
    c: ConfigV,
    s: StateV,
    u: StakerV,
    sender: String,
    now: u64,
) -> Result<(StateV, StakerV, TransferV), ContractError> {
    match spec_advance(c, s, now) {
        Err(e) => Err(e),
        Ok(s1) => match spec_settle(s1, u) {
            Err(e) => Err(e),
            Ok(u1) => match merge_claimed(u1.reward_claimed, u1.pending_reward) {
                Err(e) => Err(e),
                Ok(claimed) => Ok(
                    (
                        s1,
                        StakerV {
                            stake_amount: u1.stake_amount,
                            pending_reward: Seq::empty(),
                            reward_index: u1.reward_index,
                            reward_claimed: claimed,
                            unlock: u1.unlock,
                        },
                        TransferV { to_address: sender, amount: coins_of(u1.pending_reward) },
                    ),
                ),
            },
        },
    }
}

/// Withdraw unlock entry `id`: fails without an unlock queue, on an index
/// out of range, and before the entry's cooldown has elapsed. On success the
/// entry leaves the queue and its amount is transferred. A staker whose last
/// entry leaves with zero stake is flushed through a final claim and the
/// record is deleted (`None`).
pub open spec fn spec_withdraw(
    c: ConfigV,
    s: StateV,
    u: StakerV,
    sender: String,
    id: usize,
    now: u64,
) -> Result<(StateV, Option<StakerV>, Seq<TransferV>), ContractError> {
    match u.unlock {
        None => Err(ContractError::InvalidWithdrawIndex),
        Some(queue) => if id >= queue.len() {
            Err(ContractError::InvalidWithdrawIndex)
        } else if now < queue[id as int].at {
            Err(ContractError::WithdrawLocked)
        } else {
            let principal = TransferV {
                to_address: sender,
                amount: seq![
                    Coin { denom: c.kart_denom, amount: queue[id as int].amount },
                ],
            };
            let remaining = queue.remove(id as int);
            if remaining.len() == 0 && u.stake_amount == 0 {
                let exiting = StakerV {
                    stake_amount: u.stake_amount,
                    pending_reward: u.pending_reward,
                    reward_index: u.reward_index,
                    reward_claimed: u.reward_claimed,
                    unlock: None,
                };
                match spec_claim(c, s, exiting, sender, now) {
                    Err(e) => Err(e),
                    Ok((s1, _flushed, payout)) => Ok((s1, None, seq![payout, principal])),
                }
            } else {
                let u1 = StakerV {
                    stake_amount: u.stake_amount,
                    pending_reward: u.pending_reward,
                    reward_index: u.reward_index,
                    reward_claimed: u.reward_claimed,
                    unlock: if remaining.len() == 0 {
                        None
                    } else {
                        Some(remaining)
                    },
                };
                Ok((s, Some(u1), seq![principal]))
            }
        },
    }
}

/// The owner's escape hatch: transfer `amount` of `denom` to the owner with
/// no accounting change at all.
pub open spec fn spec_admin_unlock(
    c: ConfigV,
    sender: String,
    amount: u128,
    denom: String,
) -> Result<TransferV, ContractError> {
    if c.owner@ != sender@ {
        Err(ContractError::Unauthorized)
    } else {
        Ok(TransferV { to_address: sender, amount: seq![Coin { denom, amount }] })
    }
}

/// Owner-only wholesale replacement of the configuration; nothing beyond the
/// authorization is validated.
pub open spec fn spec_update_config(c: ConfigV, sender: String, new_config: ConfigV) -> Result<
    ConfigV,
    ContractError,
> {
    if c.owner@ != sender@ {
        Err(ContractError::Unauthorized)
    } else {
        Ok(new_config)
    }
}

/// Owner-only append of one schedule entry, with the running per-denomination
/// total of everything ever scheduled kept alongside. The reward index is
/// not advanced here.
pub open spec fn spec_set_distribution_schedule(
    c: ConfigV,
    s: StateV,
    sender: String,
    reward_denom: String,
    start_date: u64,
    end_date: u64,
    amount: u128,
) -> Result<(ConfigV, StateV), ContractError> {
    if sender@ != c.owner@ {
        Err(ContractError::Unauthorized)
    } else if lookup_or(s.reward_distributed, reward_denom@, 0u128) + amount > u128::MAX {
        Err(ContractError::Arithmetic)
    } else {
        Ok(
            (
                ConfigV {
                    owner: c.owner,
                    kart_denom: c.kart_denom,
                    unlock_time: c.unlock_time,
                    distribution_schedule: c.distribution_schedule.push(
                        (start_date, end_date, amount, reward_denom),
                    ),
                },
                StateV {
                    total_staker: s.total_staker,
                    total_stake_amount: s.total_stake_amount,
                    last_distributed: s.last_distributed,
                    reward_index: s.reward_index,
                    reward_distributed: set_entry(
                        s.reward_distributed,
                        reward_denom,
                        (lookup_or(s.reward_distributed, reward_denom@, 0u128) + amount) as u128,
                    ),
                },
            ),
        )
    }
}

/// A state snapshot, optionally simulated forward to a caller-supplied time
/// by advancing an in-memory copy; nothing is persisted.
pub open spec fn spec_query_state(c: ConfigV, s: StateV, block_time: Option<u64>) -> Result<
    StateV,
    ContractError,
> {
    match block_time {
        None => Ok(s),
        Some(t) => spec_advance(c, s, t),
    }
}

/// A staker snapshot, optionally simulated forward by advancing and settling
/// in-memory copies; nothing is persisted.
pub open spec fn spec_query_staker_info(
    c: ConfigV,
    s: StateV,
    u: StakerV,
    block_time: Option<u64>,
) -> Result<StakerV, ContractError> {
    match block_time {
        None => Ok(u),
        Some(t) => match spec_advance(c, s, t) {
            Err(e) => Err(e),
            Ok(s1) => spec_settle(s1, u),
        },
    }
}

/// Dispatch one action. The outcome carries the records as the action leaves
/// them and the transfer instructions it issues.
pub open spec fn spec_execute(
    c: ConfigV,
    s: StateV,
    u: StakerV,
    sender: String,
    funds: Seq<Coin>,
    now: u64,
    msg: ExecuteMsg,
) -> Result<OutcomeV, ContractError> {
    match msg {
        ExecuteMsg::Stake {  } => match spec_stake(c, s, u, funds, now) {
            Err(e) => Err(e),
            Ok((s1, u1)) => Ok(
                OutcomeV { config: c, state: s1, staker: Some(u1), messages: Seq::empty() },
            ),
        },
        ExecuteMsg::Unstake { amount } => match spec_unstake(c, s, u, amount, now) {
            Err(e) => Err(e),
            Ok((s1, u1)) => Ok(
                OutcomeV { config: c, state: s1, staker: Some(u1), messages: Seq::empty() },
            ),
        },
        ExecuteMsg::Withdraw { id } => match spec_withdraw(c, s, u, sender, id, now) {
            Err(e) => Err(e),
            Ok((s1, u1, msgs)) => Ok(OutcomeV { config: c, state: s1, staker: u1, messages: msgs }),
        },
        ExecuteMsg::Claim {  } => match spec_claim(c, s, u, sender, now) {
            Err(e) => Err(e),
            Ok((s1, u1, payout)) => Ok(
                OutcomeV { config: c, state: s1, staker: Some(u1), messages: seq![payout] },
            ),
        },
        ExecuteMsg::Unlock { amount, denom } => match spec_admin_unlock(c, sender, amount, denom) {
            Err(e) => Err(e),
            Ok(payout) => Ok(
                OutcomeV { config: c, state: s, staker: Some(u), messages: seq![payout] },
            ),
        },
        ExecuteMsg::SetDistribution { reward_denom, start_date, end_date, amount } => match
            spec_set_distribution_schedule(c, s, sender, reward_denom, start_date, end_date, amount) {
            Err(e) => Err(e),
            Ok((c1, s1)) => Ok(
                OutcomeV { config: c1, state: s1, staker: Some(u), messages: Seq::empty() },
            ),
        },
        ExecuteMsg::UpdateConfig { config } => match spec_update_config(c, sender, config@) {
            Err(e) => Err(e),
            Ok(c1) => Ok(
                OutcomeV { config: c1, state: s, staker: Some(u), messages: Seq::empty() },
            ),
        },
    }
}

} // verus!
