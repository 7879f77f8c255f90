use vstd::prelude::*;

use crate::denoms::DenomMap;
use crate::error::ContractError;
use crate::model::{
    spec_admin_unlock, spec_claim, spec_execute, spec_instantiate, spec_query_staker_info,
    spec_query_state, spec_set_distribution_schedule, spec_stake, spec_unstake,
    spec_update_config, spec_withdraw, transfers_view, OutcomeV, StakerV, StateV, TransferV,
};
use crate::msg::{
    Coin, ConfigResponse, ExecuteMsg, InstantiateMsg, QueryAnswer, QueryMsg, StakerInfoResponse,
    StateResponse, TransferMsg, Unlock,
};
use crate::reward::{compute_reward, compute_staker_reward};
use crate::state::{Config, StakerInfo, State};

verus! {

/// Everything an action decides: the configuration and state as they must be
/// written back, the acting staker's record (`None` when the record is to be
/// deleted), and the transfer instructions to hand to the external ledger.
#[derive(Debug)]
pub struct ExecuteOutcome {
    pub config: Config,
    pub state: State,
    pub staker_info: Option<StakerInfo>,
    pub messages: Vec<TransferMsg>,
}

/// The configuration and the zeroed global state a fresh instantiation
/// persists. The caller becomes the owner.
pub fn instantiate(sender: String, msg: InstantiateMsg) -> (r: (Config, State))
    ensures
        (r.0@, r.1@) == spec_instantiate(
            sender,
            msg.kart_denom,
            msg.unlock_time,
            msg.distribution_schedule@,
        ),
        r.1.wf(),
{
    let config = Config {
        owner: sender,
        kart_denom: msg.kart_denom,
        unlock_time: msg.unlock_time,
        distribution_schedule: msg.distribution_schedule,
    };
    let state = State {
        total_staker: 0,
        total_stake_amount: 0,
        last_distributed: 0,
        reward_index: DenomMap::new(),
        reward_distributed: DenomMap::new(),
    };
    (config, state)
}

/// Grow both stake totals by `amount`, checking for overflow first so that a
/// failure leaves both records untouched.
fn increase_stake_amount(state: &mut State, staker_info: &mut StakerInfo, amount: u128) -> (r:
    Result<(), ContractError>)
    ensures
        old(state).total_stake_amount + amount > u128::MAX || old(staker_info).stake_amount
            + amount > u128::MAX ==> r == Err::<(), ContractError>(ContractError::Arithmetic)
            && *final(state) == *old(state) && *final(staker_info) == *old(staker_info),
        old(state).total_stake_amount + amount <= u128::MAX && old(staker_info).stake_amount
            + amount <= u128::MAX ==> r is Ok && *final(state) == (State {
            total_stake_amount: (old(state).total_stake_amount + amount) as u128,
            ..*old(state)
        }) && *final(staker_info) == (StakerInfo {
            stake_amount: (old(staker_info).stake_amount + amount) as u128,
            ..*old(staker_info)
        }),
{
    let new_total = match state.total_stake_amount.checked_add(amount) {
        Some(v) => v,
        None => {
            return Err(ContractError::Arithmetic);
        },
    };
    let new_stake = match staker_info.stake_amount.checked_add(amount) {
        Some(v) => v,
        None => {
            return Err(ContractError::Arithmetic);
        },
    };
    state.total_stake_amount = new_total;
    staker_info.stake_amount = new_stake;
    Ok(())
}

/// Shrink both stake totals by `amount` and queue `{amount, unlock_at}` on
/// the staker's unlock list. A failure (more unstaked than staked anywhere)
/// leaves both records untouched.
fn decrease_stake_amount(
    state: &mut State,
    staker_info: &mut StakerInfo,
    amount: u128,
    unlock_at: u64,
) -> (r: Result<(), ContractError>)
    ensures
        old(state).total_stake_amount < amount || old(staker_info).stake_amount < amount ==> r
            == Err::<(), ContractError>(ContractError::Arithmetic) && *final(state) == *old(state)
            && *final(staker_info) == *old(staker_info),
        old(state).total_stake_amount >= amount && old(staker_info).stake_amount >= amount ==> ({
            &&& r is Ok
            &&& *final(state) == (State {
                total_stake_amount: (old(state).total_stake_amount - amount) as u128,
                ..*old(state)
            })
            &&& final(staker_info).stake_amount == old(staker_info).stake_amount - amount
            &&& final(staker_info).pending_reward == old(staker_info).pending_reward
            &&& final(staker_info).reward_index == old(staker_info).reward_index
            &&& final(staker_info).reward_claimed == old(staker_info).reward_claimed
            &&& final(staker_info).unlock matches Some(q) && q@ == (match old(
                staker_info,
            ).unlock {
                Some(list) => list@,
                None => Seq::<Unlock>::empty(),
            }).push(Unlock { amount, at: unlock_at })
        }),
{
    let new_total = match state.total_stake_amount.checked_sub(amount) {
        Some(v) => v,
        None => {
            return Err(ContractError::Arithmetic);
        },
    };
    let new_stake = match staker_info.stake_amount.checked_sub(amount) {
        Some(v) => v,
        None => {
            return Err(ContractError::Arithmetic);
        },
    };
    state.total_stake_amount = new_total;
    staker_info.stake_amount = new_stake;
    let entry = Unlock { amount, at: unlock_at };
    match &mut staker_info.unlock {
        Some(list) => {
            list.push(entry);
        },
        None => {
            let mut list: Vec<Unlock> = Vec::new();
            list.push(entry);
            staker_info.unlock = Some(list);
        },
    }
    Ok(())
}

/// Stake the funds sent along with the action: exactly one fund of the
/// configured stake denomination, of positive amount. A first-time staker is
/// counted, the index advances to `block_time`, the staker settles against
/// the pre-increase stake, then both stake totals grow.
pub fn stake(
    config: &Config,
    state: State,
    staker_info: StakerInfo,
    funds: &Vec<Coin>,
    block_time: u64,
) -> (r: Result<(State, StakerInfo), ContractError>)
    requires
        state.wf(),
        staker_info.wf(),
    ensures
        r matches Ok(out) ==> spec_stake(config@, state@, staker_info@, funds@, block_time)
            == Ok::<(StateV, StakerV), ContractError>((out.0@, out.1@)) && out.0.wf()
            && out.1.wf(),
        r matches Err(e) ==> spec_stake(config@, state@, staker_info@, funds@, block_time)
            == Err::<(StateV, StakerV), ContractError>(e),
{
    if funds.len() != 1 || !(funds[0].denom == config.kart_denom) {
        return Err(ContractError::UnsupportedToken);
    }
    let amount = funds[0].amount;
    if amount == 0 {
        return Err(ContractError::InvalidAmount);
    }
    let mut state = state;
    let mut staker_info = staker_info;
    if staker_info.stake_amount == 0 {
        match state.total_staker.checked_add(1) {
            Some(counted) => {
                state.total_staker = counted;
            },
            None => {
                return Err(ContractError::Arithmetic);
            },
        }
    }
    match compute_reward(config, &mut state, block_time) {
        Ok(_) => {},
        Err(e) => {
            return Err(e);
        },
    }
    match compute_staker_reward(&state, &mut staker_info) {
        Ok(_) => {},
        Err(e) => {
            return Err(e);
        },
    }
    match increase_stake_amount(&mut state, &mut staker_info, amount) {
        Ok(_) => {},
        Err(e) => {
            return Err(e);
        },
    }
    Ok((state, staker_info))
}

/// Unstake `amount` of principal: fails when `amount` exceeds the current
/// stake. Advances the index, settles on the pre-decrease stake, shrinks
/// both totals, queues an unlock entry redeemable at
/// `block_time + unlock_time`, and uncounts a staker whose stake reaches
/// zero. Principal is only queued here, not transferred.
pub fn unstake(
    config: &Config,
    state: State,
    staker_info: StakerInfo,
    amount: u128,
    block_time: u64,
) -> (r: Result<(State, StakerInfo), ContractError>)
    requires
        state.wf(),
        staker_info.wf(),
    ensures
        r matches Ok(out) ==> spec_unstake(config@, state@, staker_info@, amount, block_time)
            == Ok::<(StateV, StakerV), ContractError>((out.0@, out.1@)) && out.0.wf()
            && out.1.wf(),
        r matches Err(e) ==> spec_unstake(config@, state@, staker_info@, amount, block_time)
            == Err::<(StateV, StakerV), ContractError>(e),
{
    if staker_info.stake_amount < amount {
        return Err(ContractError::InsufficientToken);
    }
    let mut state = state;
    let mut staker_info = staker_info;
    match compute_reward(config, &mut state, block_time) {
        Ok(_) => {},
        Err(e) => {
            return Err(e);
        },
    }
    match compute_staker_reward(&state, &mut staker_info) {
        Ok(_) => {},
        Err(e) => {
            return Err(e);
        },
    }
    let unlock_at = match block_time.checked_add(config.unlock_time) {
        Some(v) => v,
        None => {
            return Err(ContractError::Arithmetic);
        },
    };
    match decrease_stake_amount(&mut state, &mut staker_info, amount, unlock_at) {
        Ok(_) => {},
        Err(e) => {
            return Err(e);
        },
    }
    if staker_info.stake_amount == 0 {
        match state.total_staker.checked_sub(1) {
            Some(counted) => {
                state.total_staker = counted;
            },
            None => {
                return Err(ContractError::Arithmetic);
            },
        }
    }
    Ok((state, staker_info))
}

/// Pay out everything pending: advance the index, settle, move every
/// nonzero pending amount into the cumulative claimed totals, and hand back
/// one multi-coin transfer over those amounts, in map order. Settlement
/// leaves zero pending entries behind for denominations that accrued
/// nothing; those are bookkeeping, carry no coin and touch no claimed total
/// (a claim with nothing nonzero pending is a valid no-op transfer of no
/// coins).
pub fn claim_reward(
    config: &Config,
    state: State,
    staker_info: StakerInfo,
    sender: String,
    block_time: u64,
) -> (r: Result<(State, StakerInfo, TransferMsg), ContractError>)
    requires
        state.wf(),
        staker_info.wf(),
    ensures
        r matches Ok(out) ==> ({
            &&& spec_claim(config@, state@, staker_info@, sender, block_time) matches Ok(ev)
            &&& out.0@ == ev.0
            &&& out.1@ == ev.1
            &&& out.2@ == ev.2
            &&& out.0.wf()
            &&& out.1.wf()
        }),
        r matches Err(e) ==> spec_claim(config@, state@, staker_info@, sender, block_time)
            == Err::<(StateV, StakerV, TransferV), ContractError>(e),
{
    let mut state = state;
    let mut staker_info = staker_info;
    match compute_reward(config, &mut state, block_time) {
        Ok(_) => {},
        Err(e) => {
            return Err(e);
        },
    }
    match compute_staker_reward(&state, &mut staker_info) {
        Ok(_) => {},
        Err(e) => {
            return Err(e);
        },
    }
    let ghost p = staker_info.pending_reward@;
    let ghost target = crate::model::merge_claimed(staker_info.reward_claimed@, p);

    let mut claimed = staker_info.reward_claimed.duplicate();
    let mut coins: Vec<Coin> = Vec::new();
    proof {
        assert(p.skip(0) =~= p);
        assert(Seq::<Coin>::empty() + crate::model::coins_of(p) =~= crate::model::coins_of(p));
    }
    let n = staker_info.pending_reward.entries.len();
    let mut i: usize = 0;
    #[verifier::loop_isolation(false)]
    while i < n
        invariant
            n == p.len(),
            p == staker_info.pending_reward@,
            staker_info.wf(),
            0 <= i <= n,
            claimed.wf(),
            target == crate::model::merge_claimed(staker_info.reward_claimed@, p),
            crate::model::merge_claimed(claimed@, p.skip(i as int)) == target,
            crate::model::coins_of(p) == coins@ + crate::model::coins_of(p.skip(i as int)),
        decreases n - i,
    {
        proof {
            assert(p.skip(i as int).first() == p[i as int]);
            assert(p.skip(i as int).drop_first() =~= p.skip(i + 1));
        }
        let e = &staker_info.pending_reward.entries[i];
        if e.1 > 0 {
            let base = match claimed.get(&e.0) {
                Some(v) => v,
                None => 0,
            };
            let credited = match base.checked_add(e.1) {
                Some(v) => v,
                None => {
                    return Err(ContractError::Arithmetic);
                },
            };
            claimed.set(&e.0, credited);
            let ghost coins0 = coins@;
            coins.push(Coin { denom: e.0.clone(), amount: e.1 });
            proof {
                let c = (Coin { denom: p[i as int].0, amount: p[i as int].1 });
                assert(coins@ =~= coins0.push(c));
                assert(crate::model::coins_of(p.skip(i as int)) == seq![c]
                    + crate::model::coins_of(p.skip(i + 1)));
                assert(coins0.push(c) + crate::model::coins_of(p.skip(i + 1)) =~= coins0
                    + crate::model::coins_of(p.skip(i as int)));
            }
        }
        i += 1;
    }
    proof {
        assert(p.skip(n as int) =~= Seq::<(String, u128)>::empty());
        assert(coins@ + crate::model::coins_of(p.skip(n as int)) =~= coins@);
        assert(coins@ == crate::model::coins_of(p));
    }
    staker_info.reward_claimed = claimed;
    staker_info.pending_reward = DenomMap::new();
    let transfer = TransferMsg { to_address: sender, amount: coins };
    Ok((state, staker_info, transfer))
}

/// Withdraw unlock entry `id`: fails without an unlock queue, on an index
/// out of range, and before the entry's cooldown has elapsed. The entry
/// leaves the queue and its amount is transferred in the stake denomination.
/// A staker whose last entry leaves with zero stake remaining is flushed
/// through a final claim and the record is deleted (`None` in the result).
pub fn withdraw(
    config: &Config,
    state: State,
    staker_info: StakerInfo,
    sender: String,
    id: usize,
    block_time: u64,
) -> (r: Result<(State, Option<StakerInfo>, Vec<TransferMsg>), ContractError>)
    requires
        state.wf(),
        staker_info.wf(),
    ensures
        r matches Ok(out) ==> ({
            &&& spec_withdraw(config@, state@, staker_info@, sender, id, block_time) matches Ok(ev)
            &&& out.0@ == ev.0
            &&& (out.1 matches Some(u) ==> (ev.1 matches Some(uv) && u@ == uv && u.wf()))
            &&& (out.1 is None ==> ev.1 is None)
            &&& transfers_view(out.2@) == ev.2
            &&& out.0.wf()
        }),
        r matches Err(e) ==> spec_withdraw(config@, state@, staker_info@, sender, id, block_time)
            == Err::<(StateV, Option<StakerV>, Seq<TransferV>), ContractError>(e),
{
    let mut state = state;
    let mut staker_info = staker_info;
    let entry: Unlock;
    match &mut staker_info.unlock {
        None => {
            return Err(ContractError::InvalidWithdrawIndex);
        },
        Some(list) => {
            if id >= list.len() {
                return Err(ContractError::InvalidWithdrawIndex);
            }
            let e = list[id];
            if block_time < e.at {
                return Err(ContractError::WithdrawLocked);
            }
            list.remove(id);
            entry = e;
        },
    }
    let empty_now = match &staker_info.unlock {
        Some(list) => list.len() == 0,
        None => false,
    };
    let mut principal_coins: Vec<Coin> = Vec::new();
    principal_coins.push(Coin { denom: config.kart_denom.clone(), amount: entry.amount });
    let principal = TransferMsg { to_address: sender.clone(), amount: principal_coins };
    proof {
        assert(principal@.amount =~= seq![
            Coin { denom: config@.kart_denom, amount: entry.amount },
        ]);
    }
    if empty_now && staker_info.stake_amount == 0 {
        staker_info.unlock = None;
        match claim_reward(config, state, staker_info, sender, block_time) {
            Err(e) => Err(e),
            Ok((s1, _flushed, payout)) => {
                let mut messages: Vec<TransferMsg> = Vec::new();
                messages.push(payout);
                messages.push(principal);
                proof {
                    assert(transfers_view(messages@) =~= seq![payout@, principal@]);
                }
                Ok((s1, None, messages))
            },
        }
    } else {
        if empty_now {
            staker_info.unlock = None;
        }
        let mut messages: Vec<TransferMsg> = Vec::new();
        messages.push(principal);
        proof {
            assert(transfers_view(messages@) =~= seq![principal@]);
        }
        Ok((state, Some(staker_info), messages))
    }
}

/// The owner's escape hatch for stray balances: transfer `amount` of `denom`
/// to the owner, with no accounting change at all.
pub fn unlock(config: &Config, sender: String, amount: u128, denom: String) -> (r: Result<
    TransferMsg,
    ContractError,
>)
    ensures
        r matches Ok(m) ==> spec_admin_unlock(config@, sender, amount, denom) == Ok::<
            TransferV,
            ContractError,
        >(m@),
        r matches Err(e) ==> spec_admin_unlock(config@, sender, amount, denom) == Err::<
            TransferV,
            ContractError,
        >(e),
{
    if !(config.owner == sender) {
        return Err(ContractError::Unauthorized);
    }
    let mut coins: Vec<Coin> = Vec::new();
    coins.push(Coin { denom, amount });
    let transfer = TransferMsg { to_address: sender, amount: coins };
    proof {
        assert(spec_admin_unlock(config@, sender, amount, denom) matches Ok(mv) && transfer@.amount
            =~= mv.amount);
    }
    Ok(transfer)
}

/// Owner-only wholesale replacement of the configuration. Nothing beyond the
/// authorization is validated: the owner is trusted with what they set.
pub fn update_config(config: &Config, sender: &String, new_config: Config) -> (r: Result<
    Config,
    ContractError,
>)
    ensures
        r matches Ok(c) ==> spec_update_config(config@, *sender, new_config@) == Ok::<
            crate::model::ConfigV,
            ContractError,
        >(c@),
        r matches Err(e) ==> spec_update_config(config@, *sender, new_config@) == Err::<
            crate::model::ConfigV,
            ContractError,
        >(e),
{
    if !(config.owner == *sender) {
        return Err(ContractError::Unauthorized);
    }
    Ok(new_config)
}

/// Owner-only append of one distribution schedule entry, keeping the running
/// per-denomination total of everything ever scheduled. The reward index is
/// not advanced here; the new entry starts counting at the next action.
pub fn set_distribution_schedule(
    config: Config,
    state: State,
    sender: &String,
    reward_denom: String,
    start_date: u64,
    end_date: u64,
    amount: u128,
) -> (r: Result<(Config, State), ContractError>)
    requires
        state.wf(),
    ensures
        r matches Ok(out) ==> spec_set_distribution_schedule(
            config@,
            state@,
            *sender,
            reward_denom,
            start_date,
            end_date,
            amount,
        ) == Ok::<(crate::model::ConfigV, StateV), ContractError>((out.0@, out.1@))
            && out.1.wf(),
        r matches Err(e) ==> spec_set_distribution_schedule(
            config@,
            state@,
            *sender,
            reward_denom,
            start_date,
            end_date,
            amount,
        ) == Err::<(crate::model::ConfigV, StateV), ContractError>(e),
{
    if !(*sender == config.owner) {
        return Err(ContractError::Unauthorized);
    }
    let base = match state.reward_distributed.get(&reward_denom) {
        Some(v) => v,
        None => 0,
    };
    let total = match base.checked_add(amount) {
        Some(v) => v,
        None => {
            return Err(ContractError::Arithmetic);
        },
    };
    let mut config = config;
    let mut state = state;
    let denom_for_schedule = reward_denom.clone();
    config.distribution_schedule.push((start_date, end_date, amount, denom_for_schedule));
    state.reward_distributed.set(&reward_denom, total);
    Ok((config, state))
}

/// Dispatch one action against the loaded records. `sender` is the acting
/// identity, `funds` what it sent along, `block_time` the logical clock. The
/// outcome says what to write back (a `None` staker record is deleted) and
/// which transfers to issue.
pub fn execute(
    config: Config,
    state: State,
    staker_info: StakerInfo,
    sender: String,
    funds: Vec<Coin>,
    block_time: u64,
    msg: ExecuteMsg,
) -> (r: Result<ExecuteOutcome, ContractError>)
    requires
        state.wf(),
        staker_info.wf(),
    ensures
        r matches Ok(out) ==> ({
            &&& spec_execute(config@, state@, staker_info@, sender, funds@, block_time, msg)
                matches Ok(ev)
            &&& out.config@ == ev.config
            &&& out.state@ == ev.state
            &&& (out.staker_info matches Some(u) ==> (ev.staker matches Some(uv) && u@ == uv
                && u.wf()))
            &&& (out.staker_info is None ==> ev.staker is None)
            &&& transfers_view(out.messages@) == ev.messages
            &&& out.state.wf()
        }),
        r matches Err(e) ==> spec_execute(config@, state@, staker_info@, sender, funds@, block_time, msg)
            == Err::<OutcomeV, ContractError>(e),
{
    match msg {
        ExecuteMsg::Stake {  } => match stake(&config, state, staker_info, &funds, block_time) {
            Err(e) => Err(e),
            Ok((s1, u1)) => {
                let messages: Vec<TransferMsg> = Vec::new();
                proof {
                    assert(transfers_view(messages@) =~= Seq::<TransferV>::empty());
                }
                Ok(ExecuteOutcome { config, state: s1, staker_info: Some(u1), messages })
            },
        },
        ExecuteMsg::Unstake { amount } => match unstake(
            &config,
            state,
            staker_info,
            amount,
            block_time,
        ) {
            Err(e) => Err(e),
            Ok((s1, u1)) => {
                let messages: Vec<TransferMsg> = Vec::new();
                proof {
                    assert(transfers_view(messages@) =~= Seq::<TransferV>::empty());
                }
                Ok(ExecuteOutcome { config, state: s1, staker_info: Some(u1), messages })
            },
        },
        ExecuteMsg::Withdraw { id } => match withdraw(
            &config,
            state,
            staker_info,
            sender,
            id,
            block_time,
        ) {
            Err(e) => Err(e),
            Ok((s1, u1, messages)) => Ok(
                ExecuteOutcome { config, state: s1, staker_info: u1, messages },
            ),
        },
        ExecuteMsg::Claim {  } => match claim_reward(&config, state, staker_info, sender, block_time) {
            Err(e) => Err(e),
            Ok((s1, u1, payout)) => {
                let mut messages: Vec<TransferMsg> = Vec::new();
                messages.push(payout);
                proof {
                    assert(transfers_view(messages@) =~= seq![messages@[0]@]);
                }
                Ok(ExecuteOutcome { config, state: s1, staker_info: Some(u1), messages })
            },
        },
        ExecuteMsg::Unlock { amount, denom } => match unlock(&config, sender, amount, denom) {
            Err(e) => Err(e),
            Ok(payout) => {
                let mut messages: Vec<TransferMsg> = Vec::new();
                messages.push(payout);
                proof {
                    assert(transfers_view(messages@) =~= seq![messages@[0]@]);
                }
                Ok(ExecuteOutcome { config, state, staker_info: Some(staker_info), messages })
            },
        },
        ExecuteMsg::SetDistribution { reward_denom, start_date, end_date, amount } => match
            set_distribution_schedule(
            config,
            state,
            &sender,
            reward_denom,
            start_date,
            end_date,
            amount,
        ) {
            Err(e) => Err(e),
            Ok((c1, s1)) => {
                let messages: Vec<TransferMsg> = Vec::new();
                proof {
                    assert(transfers_view(messages@) =~= Seq::<TransferV>::empty());
                }
                Ok(ExecuteOutcome { config: c1, state: s1, staker_info: Some(staker_info), messages })
            },
        },
        ExecuteMsg::UpdateConfig { config: new_config } => match update_config(
            &config,
            &sender,
            new_config,
        ) {
            Err(e) => Err(e),
            Ok(c1) => {
                let messages: Vec<TransferMsg> = Vec::new();
                proof {
                    assert(transfers_view(messages@) =~= Seq::<TransferV>::empty());
                }
                Ok(ExecuteOutcome { config: c1, state, staker_info: Some(staker_info), messages })
            },
        },
    }
}

/// A fresh copy of a schedule list.
fn clone_schedule(v: &Vec<(u64, u64, u128, String)>) -> (r: Vec<(u64, u64, u128, String)>)
    ensures
        r@ == v@,
{
    let n = v.len();
    let mut out: Vec<(u64, u64, u128, String)> = Vec::new();
    let mut i: usize = 0;
    while i < n
        invariant
            n == v@.len(),
            0 <= i <= n,
            out@ =~= v@.subrange(0, i as int),
        decreases n - i,
    {
        let e = &v[i];
        out.push((e.0, e.1, e.2, e.3.clone()));
        proof {
            assert((e.0, e.1, e.2, e.3) == v@[i as int]);
            assert(out@ =~= v@.subrange(0, i + 1 as int));
        }
        i += 1;
    }
    proof {
        assert(out@ =~= v@);
    }
    out
}

/// The configuration, as the caller may see it.
pub fn query_config(config: &Config) -> (r: ConfigResponse)
    ensures
        r@ == config@,
{
    ConfigResponse {
        owner: config.owner.clone(),
        kart_denom: config.kart_denom.clone(),
        unlock_time: config.unlock_time,
        distribution_schedule: clone_schedule(&config.distribution_schedule),
    }
}

/// The global state, optionally simulated forward to `block_time` against an
/// in-memory copy; nothing is persisted either way.
pub fn query_state(config: &Config, state: State, block_time: Option<u64>) -> (r: Result<
    StateResponse,
    ContractError,
>)
    requires
        state.wf(),
    ensures
        r matches Ok(resp) ==> spec_query_state(config@, state@, block_time) == Ok::<
            StateV,
            ContractError,
        >(resp@),
        r matches Err(e) ==> spec_query_state(config@, state@, block_time) == Err::<
            StateV,
            ContractError,
        >(e),
{
    let mut state = state;
    match block_time {
        None => {},
        Some(t) => match compute_reward(config, &mut state, t) {
            Ok(_) => {},
            Err(e) => {
                return Err(e);
            },
        },
    }
    Ok(
        StateResponse {
            total_staker: state.total_staker,
            total_stake_amount: state.total_stake_amount,
            last_distributed: state.last_distributed,
            reward_index: state.reward_index,
            reward_distributed: state.reward_distributed,
        },
    )
}

/// One staker's record, optionally simulated forward to `block_time` by
/// advancing and settling in-memory copies; nothing is persisted either way.
pub fn query_staker_info(
    config: &Config,
    state: State,
    staker_info: StakerInfo,
    block_time: Option<u64>,
) -> (r: Result<StakerInfoResponse, ContractError>)
    requires
        state.wf(),
        staker_info.wf(),
    ensures
        r matches Ok(resp) ==> spec_query_staker_info(config@, state@, staker_info@, block_time)
            == Ok::<StakerV, ContractError>(resp@),
        r matches Err(e) ==> spec_query_staker_info(config@, state@, staker_info@, block_time)
            == Err::<StakerV, ContractError>(e),
{
    let mut state = state;
    let mut staker_info = staker_info;
    match block_time {
        None => {},
        Some(t) => {
            match compute_reward(config, &mut state, t) {
                Ok(_) => {},
                Err(e) => {
                    return Err(e);
                },
            }
            match compute_staker_reward(&state, &mut staker_info) {
                Ok(_) => {},
                Err(e) => {
                    return Err(e);
                },
            }
        },
    }
    Ok(
        StakerInfoResponse {
            stake_amount: staker_info.stake_amount,
            pending_reward: staker_info.pending_reward,
            reward_index: staker_info.reward_index,
            reward_claimed: staker_info.reward_claimed,
            unlock: staker_info.unlock,
        },
    )
}

/// Dispatch one read-only query against the loaded records. For a staker
/// query the caller hands in that staker's record (the zero record when none
/// is stored). No query mutates anything.
pub fn query(config: &Config, state: State, staker_info: StakerInfo, msg: QueryMsg) -> (r: Result<
    QueryAnswer,
    ContractError,
>)
    requires
        state.wf(),
        staker_info.wf(),
    ensures
        match msg {
            QueryMsg::Config {  } => r matches Ok(ans) && (ans matches QueryAnswer::Config(resp)
                && resp@ == config@),
            QueryMsg::State { block_time } => (match spec_query_state(config@, state@, block_time) {
                Ok(sv) => r matches Ok(ans) && (ans matches QueryAnswer::State(resp) && resp@
                    == sv),
                Err(e) => r == Err::<QueryAnswer, ContractError>(e),
            }),
            QueryMsg::StakerInfo { staker, block_time } => (match spec_query_staker_info(
                config@,
                state@,
                staker_info@,
                block_time,
            ) {
                Ok(uv) => r matches Ok(ans) && (ans matches QueryAnswer::StakerInfo(resp) && resp@
                    == uv),
                Err(e) => r == Err::<QueryAnswer, ContractError>(e),
            }),
        },
{
    match msg {
        QueryMsg::Config {  } => Ok(QueryAnswer::Config(query_config(config))),
        QueryMsg::State { block_time } => match query_state(config, state, block_time) {
            Ok(resp) => Ok(QueryAnswer::State(resp)),
            Err(e) => Err(e),
        },
        QueryMsg::StakerInfo { staker: _, block_time } => match query_staker_info(
            config,
            state,
            staker_info,
            block_time,
        ) {
            Ok(resp) => Ok(QueryAnswer::StakerInfo(resp)),
            Err(e) => Err(e),
        },
    }
}

} // verus!
