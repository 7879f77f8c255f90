use kartel_staking::contract::{
    claim_reward, execute, instantiate, query, query_config, query_staker_info, query_state,
    ExecuteOutcome,
};
use kartel_staking::decimal::Decimal;
use kartel_staking::denoms::DenomMap;
use kartel_staking::error::ContractError;
use kartel_staking::msg::{
    Coin, ConfigResponse, ExecuteMsg, InstantiateMsg, QueryAnswer, QueryMsg, StakerInfoResponse,
    StateResponse, Unlock,
};
use kartel_staking::reward::{compute_reward, compute_staker_reward};
use kartel_staking::state::{Config, StakerInfo, State};

/// The logical block time every test starts from.
const T0: u64 = 1571797419;

fn coins(amount: u128, denom: &str) -> Vec<Coin> {
    vec![Coin { denom: denom.to_string(), amount }]
}

fn dec_map(entries: Vec<(&str, Decimal)>) -> DenomMap<Decimal> {
    DenomMap { entries: entries.into_iter().map(|(d, v)| (d.to_string(), v)).collect() }
}

fn amt_map(entries: Vec<(&str, u128)>) -> DenomMap<u128> {
    DenomMap { entries: entries.into_iter().map(|(d, v)| (d.to_string(), v)).collect() }
}

fn run(
    config: Config,
    state: State,
    staker: StakerInfo,
    sender: &str,
    funds: Vec<Coin>,
    now: u64,
    msg: ExecuteMsg,
) -> ExecuteOutcome {
    execute(config, state, staker, sender.to_string(), funds, now, msg).unwrap()
}

fn query_staker(config: &Config, state: &State, staker: &StakerInfo) -> StakerInfoResponse {
    match query(
        config,
        state.clone(),
        staker.clone(),
        QueryMsg::StakerInfo { staker: "addr0000".to_string(), block_time: None },
    )
    .unwrap()
    {
        QueryAnswer::StakerInfo(resp) => resp,
        _ => panic!("wrong answer kind"),
    }
}

fn query_state_now(config: &Config, state: &State) -> StateResponse {
    match query(
        config,
        state.clone(),
        StakerInfo::new(),
        QueryMsg::State { block_time: None },
    )
    .unwrap()
    {
        QueryAnswer::State(resp) => resp,
        _ => panic!("wrong answer kind"),
    }
}

#[test]
fn proper_initialization() {
    let msg = InstantiateMsg {
        kart_denom: "kart0000".to_string(),
        unlock_time: 10000,
        distribution_schedule: vec![],
    };
    let (config, state) = instantiate("addr0000".to_string(), msg);

    let res = query(&config, state.clone(), StakerInfo::new(), QueryMsg::Config {}).unwrap();
    match res {
        QueryAnswer::Config(c) => assert_eq!(
            c,
            ConfigResponse {
                owner: "addr0000".to_string(),
                kart_denom: "kart0000".to_string(),
                unlock_time: 10000,
                distribution_schedule: vec![],
            }
        ),
        _ => panic!("wrong answer kind"),
    }

    assert_eq!(
        query_state_now(&config, &state),
        StateResponse {
            total_staker: 0,
            total_stake_amount: 0,
            last_distributed: 0,
            reward_index: dec_map(vec![]),
            reward_distributed: amt_map(vec![]),
        }
    );
}

fn two_schedule_instantiate() -> (Config, State) {
    let msg = InstantiateMsg {
        kart_denom: "kart0000".to_string(),
        unlock_time: 10000,
        distribution_schedule: vec![
            (T0, T0 + 100, 1000000, "kart0000".to_string()),
            (T0 + 100, T0 + 200, 1000000, "usk0000".to_string()),
        ],
    };
    instantiate("addr0000".to_string(), msg)
}

#[test]
fn test_stake_tokens() {
    let (config, state) = two_schedule_instantiate();

    let out = run(
        config,
        state,
        StakerInfo::new(),
        "addr0000",
        coins(100, "kart0000"),
        T0,
        ExecuteMsg::Stake {},
    );
    let (config, state, staker) = (out.config, out.state, out.staker_info.unwrap());

    assert_eq!(
        query_staker(&config, &state, &staker),
        StakerInfoResponse {
            stake_amount: 100,
            pending_reward: amt_map(vec![]),
            reward_index: dec_map(vec![]),
            reward_claimed: amt_map(vec![]),
            unlock: None,
        }
    );
    assert_eq!(
        query_state_now(&config, &state),
        StateResponse {
            total_staker: 1,
            total_stake_amount: 100,
            last_distributed: T0,
            reward_index: dec_map(vec![]),
            reward_distributed: amt_map(vec![]),
        }
    );

    let out = run(
        config,
        state,
        staker,
        "addr0000",
        coins(100, "kart0000"),
        T0 + 150,
        ExecuteMsg::Stake {},
    );
    let (config, state, staker) = (out.config, out.state, out.staker_info.unwrap());

    assert_eq!(
        query_staker(&config, &state, &staker),
        StakerInfoResponse {
            stake_amount: 200,
            pending_reward: amt_map(vec![("kart0000", 1000000), ("usk0000", 500000)]),
            reward_index: dec_map(vec![
                ("kart0000", Decimal::from_ratio(1000000, 100).unwrap()),
                ("usk0000", Decimal::from_ratio(500000, 100).unwrap()),
            ]),
            reward_claimed: amt_map(vec![]),
            unlock: None,
        }
    );
    assert_eq!(
        query_state_now(&config, &state),
        StateResponse {
            total_staker: 1,
            total_stake_amount: 200,
            last_distributed: T0 + 150,
            reward_index: dec_map(vec![
                ("kart0000", Decimal::from_ratio(1000000, 100).unwrap()),
                ("usk0000", Decimal::from_ratio(500000, 100).unwrap()),
            ]),
            reward_distributed: amt_map(vec![]),
        }
    );
}

#[test]
fn test_unstake() {
    let msg = InstantiateMsg {
        kart_denom: "kart0000".to_string(),
        unlock_time: 10000,
        distribution_schedule: vec![],
    };
    let (config, state) = instantiate("addr0000".to_string(), msg);

    let out = run(
        config,
        state,
        StakerInfo::new(),
        "addr0000",
        coins(100, "kart0000"),
        T0,
        ExecuteMsg::Stake {},
    );
    let (config, state, staker) = (out.config, out.state, out.staker_info.unwrap());

    // unbond 150 tokens; failed
    let res = execute(
        config.clone(),
        state.clone(),
        staker.clone(),
        "addr0000".to_string(),
        vec![],
        T0,
        ExecuteMsg::Unstake { amount: 150 },
    )
    .unwrap_err();
    match res {
        ContractError::InsufficientToken => {},
        _ => panic!("Must return generic error"),
    };

    // normal unstake
    let out = run(
        config,
        state,
        staker,
        "addr0000",
        vec![],
        T0,
        ExecuteMsg::Unstake { amount: 100 },
    );
    let (config, state, staker) = (out.config, out.state, out.staker_info.unwrap());

    assert_eq!(
        query_staker(&config, &state, &staker),
        StakerInfoResponse {
            stake_amount: 0,
            pending_reward: amt_map(vec![]),
            reward_index: dec_map(vec![]),
            reward_claimed: amt_map(vec![]),
            unlock: Some(vec![Unlock { amount: 100, at: T0 + 10000 }]),
        }
    );
}

#[test]
fn test_withdraw() {
    let (config, state) = two_schedule_instantiate();

    // stake 100 tokens
    let out = run(
        config,
        state,
        StakerInfo::new(),
        "addr0000",
        coins(100, "kart0000"),
        T0,
        ExecuteMsg::Stake {},
    );
    let (config, state, staker) = (out.config, out.state, out.staker_info.unwrap());

    // 150 seconds passed; normal unstake
    let out = run(
        config,
        state,
        staker,
        "addr0000",
        vec![],
        T0 + 150,
        ExecuteMsg::Unstake { amount: 100 },
    );
    let (config, state, staker) = (out.config, out.state, out.staker_info.unwrap());

    assert_eq!(
        query_staker(&config, &state, &staker),
        StakerInfoResponse {
            stake_amount: 0,
            pending_reward: amt_map(vec![("kart0000", 1000000), ("usk0000", 500000)]),
            reward_index: dec_map(vec![
                ("kart0000", Decimal::from_ratio(1000000, 100).unwrap()),
                ("usk0000", Decimal::from_ratio(500000, 100).unwrap()),
            ]),
            reward_claimed: amt_map(vec![]),
            unlock: Some(vec![Unlock { amount: 100, at: T0 + 150 + 10000 }]),
        }
    );

    let out = run(
        config,
        state,
        staker,
        "addr0000",
        vec![],
        T0 + 150 + 10000,
        ExecuteMsg::Withdraw { id: 0 },
    );
    // the staker's last unlock entry left with zero stake: the record is gone
    assert!(out.staker_info.is_none());
    // the auto-claim pays the pending rewards, then the principal moves
    assert_eq!(out.messages.len(), 2);
    assert_eq!(out.messages[0].to_address, "addr0000".to_string());
    assert_eq!(
        out.messages[0].amount,
        vec![
            Coin { denom: "kart0000".to_string(), amount: 1000000 },
            Coin { denom: "usk0000".to_string(), amount: 500000 },
        ]
    );
    assert_eq!(
        out.messages[1].amount,
        vec![Coin { denom: "kart0000".to_string(), amount: 100 }]
    );

    // a fresh read of the deleted record is the zero record
    let (config, state) = (out.config, out.state);
    assert_eq!(
        query_staker(&config, &state, &StakerInfo::new()),
        StakerInfoResponse {
            stake_amount: 0,
            pending_reward: amt_map(vec![]),
            reward_index: dec_map(vec![]),
            reward_claimed: amt_map(vec![]),
            unlock: None,
        }
    );
}

#[test]
fn withdraw_locked_and_bad_index() {
    let msg = InstantiateMsg {
        kart_denom: "kart0000".to_string(),
        unlock_time: 10000,
        distribution_schedule: vec![],
    };
    let (config, state) = instantiate("addr0000".to_string(), msg);

    // no pending unstake at all
    let err = execute(
        config.clone(),
        state.clone(),
        StakerInfo::new(),
        "addr0000".to_string(),
        vec![],
        T0,
        ExecuteMsg::Withdraw { id: 0 },
    )
    .unwrap_err();
    assert_eq!(err, ContractError::InvalidWithdrawIndex);

    let out = run(
        config,
        state,
        StakerInfo::new(),
        "addr0000",
        coins(100, "kart0000"),
        T0,
        ExecuteMsg::Stake {},
    );
    let out = run(
        out.config,
        out.state,
        out.staker_info.unwrap(),
        "addr0000",
        vec![],
        T0,
        ExecuteMsg::Unstake { amount: 100 },
    );
    let (config, state, staker) = (out.config, out.state, out.staker_info.unwrap());

    // before the cooldown has elapsed
    let err = execute(
        config.clone(),
        state.clone(),
        staker.clone(),
        "addr0000".to_string(),
        vec![],
        T0 + 9999,
        ExecuteMsg::Withdraw { id: 0 },
    )
    .unwrap_err();
    assert_eq!(err, ContractError::WithdrawLocked);

    // out of range
    let err = execute(
        config.clone(),
        state.clone(),
        staker.clone(),
        "addr0000".to_string(),
        vec![],
        T0 + 10000,
        ExecuteMsg::Withdraw { id: 1 },
    )
    .unwrap_err();
    assert_eq!(err, ContractError::InvalidWithdrawIndex);

    // after the cooldown it succeeds and, as the last entry with zero stake,
    // deletes the record
    let out = run(
        config,
        state,
        staker,
        "addr0000",
        vec![],
        T0 + 10000,
        ExecuteMsg::Withdraw { id: 0 },
    );
    assert!(out.staker_info.is_none());
    assert_eq!(
        out.messages[1].amount,
        vec![Coin { denom: "kart0000".to_string(), amount: 100 }]
    );
}

#[test]
fn stake_rejects_wrong_funds() {
    let (config, state) = two_schedule_instantiate();

    let err = execute(
        config.clone(),
        state.clone(),
        StakerInfo::new(),
        "addr0000".to_string(),
        coins(100, "usk0000"),
        T0,
        ExecuteMsg::Stake {},
    )
    .unwrap_err();
    assert_eq!(err, ContractError::UnsupportedToken);

    let mut two = coins(100, "kart0000");
    two.push(Coin { denom: "usk0000".to_string(), amount: 5 });
    let err = execute(
        config.clone(),
        state.clone(),
        StakerInfo::new(),
        "addr0000".to_string(),
        two,
        T0,
        ExecuteMsg::Stake {},
    )
    .unwrap_err();
    assert_eq!(err, ContractError::UnsupportedToken);

    let err = execute(
        config,
        state,
        StakerInfo::new(),
        "addr0000".to_string(),
        coins(0, "kart0000"),
        T0,
        ExecuteMsg::Stake {},
    )
    .unwrap_err();
    assert_eq!(err, ContractError::InvalidAmount);
}

#[test]
fn owner_only_actions_reject_strangers() {
    let (config, state) = two_schedule_instantiate();

    let err = execute(
        config.clone(),
        state.clone(),
        StakerInfo::new(),
        "addr0001".to_string(),
        vec![],
        T0,
        ExecuteMsg::SetDistribution {
            reward_denom: "usk0000".to_string(),
            start_date: T0,
            end_date: T0 + 100,
            amount: 5,
        },
    )
    .unwrap_err();
    assert_eq!(err, ContractError::Unauthorized);

    let err = execute(
        config.clone(),
        state.clone(),
        StakerInfo::new(),
        "addr0001".to_string(),
        vec![],
        T0,
        ExecuteMsg::Unlock { amount: 5, denom: "usk0000".to_string() },
    )
    .unwrap_err();
    assert_eq!(err, ContractError::Unauthorized);

    let err = execute(
        config.clone(),
        state.clone(),
        StakerInfo::new(),
        "addr0001".to_string(),
        vec![],
        T0,
        ExecuteMsg::UpdateConfig { config: config.clone() },
    )
    .unwrap_err();
    assert_eq!(err, ContractError::Unauthorized);

    // the owner's escape hatch transfers without touching the accounting
    let before = query_state_now(&config, &state);
    let out = run(
        config,
        state,
        StakerInfo::new(),
        "addr0000",
        vec![],
        T0,
        ExecuteMsg::Unlock { amount: 5, denom: "usk0000".to_string() },
    );
    assert_eq!(
        out.messages[0].amount,
        vec![Coin { denom: "usk0000".to_string(), amount: 5 }]
    );
    assert_eq!(query_state_now(&out.config, &out.state), before);
}

#[test]
fn set_distribution_schedule_appends_and_tracks_totals() {
    let (config, state) = two_schedule_instantiate();

    let out = run(
        config,
        state,
        StakerInfo::new(),
        "addr0000",
        vec![],
        T0,
        ExecuteMsg::SetDistribution {
            reward_denom: "usk0000".to_string(),
            start_date: T0 + 1000,
            end_date: T0 + 2000,
            amount: 777,
        },
    );
    let resp = query_config(&out.config);
    assert_eq!(resp.distribution_schedule.len(), 3);
    assert_eq!(
        resp.distribution_schedule[2],
        (T0 + 1000, T0 + 2000, 777, "usk0000".to_string())
    );
    assert_eq!(
        query_state_now(&out.config, &out.state).reward_distributed,
        amt_map(vec![("usk0000", 777)])
    );
    // the reward index itself has not advanced
    assert_eq!(query_state_now(&out.config, &out.state).reward_index, dec_map(vec![]));
}

#[test]
fn future_only_schedule_accrues_nothing_before_start() {
    // owner schedules a future-only window, a staker queried before the
    // window start still has zero pending rewards
    let msg = InstantiateMsg {
        kart_denom: "kart0000".to_string(),
        unlock_time: 10000,
        distribution_schedule: vec![],
    };
    let (config, state) = instantiate("addr0000".to_string(), msg);
    let out = run(
        config,
        state,
        StakerInfo::new(),
        "addr0000",
        coins(100, "kart0000"),
        T0,
        ExecuteMsg::Stake {},
    );
    let out = run(
        out.config,
        out.state,
        out.staker_info.unwrap(),
        "addr0000",
        vec![],
        T0,
        ExecuteMsg::SetDistribution {
            reward_denom: "usk0000".to_string(),
            start_date: T0 + 1000,
            end_date: T0 + 2000,
            amount: 1000000,
        },
    );
    let (config, state, staker) = (out.config, out.state, out.staker_info.unwrap());

    let resp = query_staker_info(&config, state, staker, Some(T0 + 500)).unwrap();
    assert_eq!(resp.pending_reward, amt_map(vec![]));
    assert_eq!(resp.stake_amount, 100);
}

#[test]
fn zero_stake_interval_accrues_no_index() {
    // schedules run, nobody stakes: the index does not move, only the clock
    let (config, state) = two_schedule_instantiate();
    let resp = query_state(&config, state, Some(T0 + 50)).unwrap();
    assert_eq!(resp.reward_index, dec_map(vec![]));
    assert_eq!(resp.last_distributed, T0 + 50);
}

#[test]
fn settlement_is_idempotent() {
    let (config, state) = two_schedule_instantiate();
    let out = run(
        config,
        state,
        StakerInfo::new(),
        "addr0000",
        coins(100, "kart0000"),
        T0,
        ExecuteMsg::Stake {},
    );
    let (config, mut state, mut staker) = (out.config, out.state, out.staker_info.unwrap());

    compute_reward(&config, &mut state, T0 + 150).unwrap();
    compute_staker_reward(&state, &mut staker).unwrap();
    let settled_once = staker.clone();
    compute_staker_reward(&state, &mut staker).unwrap();
    assert_eq!(staker, settled_once);
    assert_eq!(
        staker.pending_reward,
        amt_map(vec![("kart0000", 1000000), ("usk0000", 500000)])
    );
}

#[test]
fn reward_index_never_decreases() {
    let (config, state) = two_schedule_instantiate();
    let out = run(
        config,
        state,
        StakerInfo::new(),
        "addr0000",
        coins(100, "kart0000"),
        T0,
        ExecuteMsg::Stake {},
    );
    let out = run(
        out.config,
        out.state,
        out.staker_info.unwrap(),
        "addr0000",
        coins(100, "kart0000"),
        T0 + 50,
        ExecuteMsg::Stake {},
    );
    let mid = query_state_now(&out.config, &out.state).reward_index;
    let out = run(
        out.config,
        out.state,
        out.staker_info.unwrap(),
        "addr0000",
        vec![],
        T0 + 120,
        ExecuteMsg::Claim {},
    );
    let late = query_state_now(&out.config, &out.state).reward_index;
    let mid_kart = mid.get(&"kart0000".to_string()).unwrap();
    let late_kart = late.get(&"kart0000".to_string()).unwrap();
    assert!(mid_kart.atomics <= late_kart.atomics);
    assert_eq!(mid_kart, Decimal::from_ratio(500000, 100).unwrap());
}

#[test]
fn claim_pays_and_clears_pending() {
    let (config, state) = two_schedule_instantiate();
    let out = run(
        config,
        state,
        StakerInfo::new(),
        "addr0000",
        coins(100, "kart0000"),
        T0,
        ExecuteMsg::Stake {},
    );
    let (config, state, staker) = (out.config, out.state, out.staker_info.unwrap());

    let (state, staker, transfer) =
        claim_reward(&config, state, staker, "addr0000".to_string(), T0 + 150).unwrap();
    assert_eq!(transfer.to_address, "addr0000".to_string());
    assert_eq!(
        transfer.amount,
        vec![
            Coin { denom: "kart0000".to_string(), amount: 1000000 },
            Coin { denom: "usk0000".to_string(), amount: 500000 },
        ]
    );
    assert_eq!(staker.pending_reward, amt_map(vec![]));
    assert_eq!(
        staker.reward_claimed,
        amt_map(vec![("kart0000", 1000000), ("usk0000", 500000)])
    );
    assert_eq!(state.last_distributed, T0 + 150);

    // a second claim right away credits nothing and pays nothing: settlement
    // re-creates the pending entries at zero, and zero amounts carry no coin
    let (_state, staker, transfer) =
        claim_reward(&config, state, staker, "addr0000".to_string(), T0 + 150).unwrap();
    assert_eq!(transfer.amount, vec![]);
    assert_eq!(
        staker.reward_claimed,
        amt_map(vec![("kart0000", 1000000), ("usk0000", 500000)])
    );
}

#[test]
fn update_config_replaces_wholesale() {
    let (config, state) = two_schedule_instantiate();
    let replacement = Config {
        owner: "addr0002".to_string(),
        kart_denom: "kart9999".to_string(),
        unlock_time: 7,
        distribution_schedule: vec![],
    };
    let out = run(
        config,
        state,
        StakerInfo::new(),
        "addr0000",
        vec![],
        T0,
        ExecuteMsg::UpdateConfig { config: replacement.clone() },
    );
    assert_eq!(out.config, replacement);
}

#[test]
fn degenerate_schedule_is_an_arithmetic_fault() {
    // a schedule with end == start divides by zero once stake is nonzero and
    // the window is crossed
    let msg = InstantiateMsg {
        kart_denom: "kart0000".to_string(),
        unlock_time: 10000,
        distribution_schedule: vec![(T0 + 10, T0 + 10, 1000000, "kart0000".to_string())],
    };
    let (config, state) = instantiate("addr0000".to_string(), msg);
    let out = run(
        config,
        state,
        StakerInfo::new(),
        "addr0000",
        coins(100, "kart0000"),
        T0,
        ExecuteMsg::Stake {},
    );
    let err = query_state(&out.config, out.state, Some(T0 + 20)).unwrap_err();
    assert_eq!(err, ContractError::Arithmetic);
}

#[test]
fn clock_regression_is_an_arithmetic_fault() {
    // a clock that runs backwards across an active schedule surfaces as an
    // explicit underflow, never a silent wrap
    let (config, state) = two_schedule_instantiate();
    let out = run(
        config,
        state,
        StakerInfo::new(),
        "addr0000",
        coins(100, "kart0000"),
        T0 + 150,
        ExecuteMsg::Stake {},
    );
    // the second schedule spans both sides of the checkpoint, so the
    // backwards overlap is negative
    let err = query_state(&out.config, out.state, Some(T0 + 120)).unwrap_err();
    assert_eq!(err, ContractError::Arithmetic);
}

#[test]
fn scenario_two_schedules_exact_indices() {
    // two stakes across two linear schedules: indices land exactly on
    // reward = rate * elapsed / total_stake
    let (config, state) = two_schedule_instantiate();
    let out = run(
        config,
        state,
        StakerInfo::new(),
        "addr0000",
        coins(100, "kart0000"),
        T0,
        ExecuteMsg::Stake {},
    );
    let out = run(
        out.config,
        out.state,
        out.staker_info.unwrap(),
        "addr0000",
        coins(100, "kart0000"),
        T0 + 150,
        ExecuteMsg::Stake {},
    );
    let resp = query_state_now(&out.config, &out.state);
    let kart = resp.reward_index.get(&"kart0000".to_string()).unwrap();
    let usk = resp.reward_index.get(&"usk0000".to_string()).unwrap();
    // 10000 and 5000 whole units per staked unit
    assert_eq!(kart.atomics, 10000 * 1_000_000_000_000_000_000);
    assert_eq!(usk.atomics, 5000 * 1_000_000_000_000_000_000);
    let staker = out.staker_info.unwrap();
    assert_eq!(
        staker.pending_reward,
        amt_map(vec![("kart0000", 1000000), ("usk0000", 500000)])
    );
}

#[test]
fn two_stakers_share_rewards_in_proportion() {
    // conservation across stakers: 500,000 units emitted over 50 seconds
    // split 1:3 between stakes of 100 and 300, with nothing left over
    let (config, state) = two_schedule_instantiate();
    let out_a = run(
        config,
        state,
        StakerInfo::new(),
        "addr0000",
        coins(100, "kart0000"),
        T0,
        ExecuteMsg::Stake {},
    );
    let staker_a = out_a.staker_info.unwrap();
    let out_b = run(
        out_a.config,
        out_a.state,
        StakerInfo::new(),
        "addr0001",
        coins(300, "kart0000"),
        T0,
        ExecuteMsg::Stake {},
    );
    let staker_b = out_b.staker_info.unwrap();
    assert_eq!(query_state_now(&out_b.config, &out_b.state).total_staker, 2);

    let (state, staker_a, transfer_a) = claim_reward(
        &out_b.config,
        out_b.state,
        staker_a,
        "addr0000".to_string(),
        T0 + 50,
    )
    .unwrap();
    assert_eq!(
        transfer_a.amount,
        vec![Coin { denom: "kart0000".to_string(), amount: 125000 }]
    );
    assert_eq!(staker_a.reward_claimed, amt_map(vec![("kart0000", 125000)]));

    let (_state, staker_b, transfer_b) =
        claim_reward(&out_b.config, state, staker_b, "addr0001".to_string(), T0 + 50).unwrap();
    assert_eq!(
        transfer_b.amount,
        vec![Coin { denom: "kart0000".to_string(), amount: 375000 }]
    );
    assert_eq!(staker_b.reward_claimed, amt_map(vec![("kart0000", 375000)]));
}

#[test]
fn ratio_arithmetic_is_exact_past_the_u128_product() {
    // intermediate products well past u128 still give the exact floor
    let half = Decimal::from_ratio((1u128 << 127) - 1, u128::MAX).unwrap();
    assert_eq!(half.atomics, 499_999_999_999_999_999);

    // the identity ratio over the full range
    let one = Decimal::from_ratio(u128::MAX, u128::MAX).unwrap();
    assert_eq!(one.atomics, 1_000_000_000_000_000_000);

    let big_index = Decimal { atomics: 1_000_000_000_000_000_000_000_000_000_000_000_000 };
    assert_eq!(
        big_index.mul_floor(100_000_000_000_000_000_000).unwrap(),
        100_000_000_000_000_000_000_000_000_000_000_000_000
    );

    // only a result outside u128 fails
    assert_eq!(
        Decimal::from_ratio(u128::MAX, 3).unwrap_err(),
        ContractError::Arithmetic
    );
    assert_eq!(
        (Decimal { atomics: 1 << 90 }).mul_floor(1 << 100).unwrap_err(),
        ContractError::Arithmetic
    );
}

#[test]
fn fresh_staker_claim_pays_no_zero_coins() {
    // a staker entering a running pool is settled at once, which leaves zero
    // pending entries for every known denomination; claiming right away pays
    // an empty coin list and writes nothing into the claimed totals
    let (config, state) = two_schedule_instantiate();
    let out = run(
        config,
        state,
        StakerInfo::new(),
        "addr0000",
        coins(100, "kart0000"),
        T0,
        ExecuteMsg::Stake {},
    );
    let out = run(
        out.config,
        out.state,
        StakerInfo::new(),
        "addr0001",
        coins(100, "kart0000"),
        T0 + 50,
        ExecuteMsg::Stake {},
    );
    let late_staker = out.staker_info.unwrap();
    assert_eq!(late_staker.pending_reward, amt_map(vec![("kart0000", 0)]));

    let (_state, late_staker, transfer) =
        claim_reward(&out.config, out.state, late_staker, "addr0001".to_string(), T0 + 50)
            .unwrap();
    assert_eq!(transfer.amount, vec![]);
    assert_eq!(late_staker.reward_claimed, amt_map(vec![]));
    assert_eq!(late_staker.pending_reward, amt_map(vec![]));
}
