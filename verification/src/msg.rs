use vstd::prelude::*;

use crate::decimal::Decimal;
use crate::denoms::DenomMap;
use crate::state::Config;

verus! {

/// An amount of one asset.
#[derive(Debug, Clone, PartialEq, Eq)]
pub struct Coin {
    pub denom: String,
    pub amount: u128,
}

/// A transfer instruction handed to the external ledger: pay these coins to
/// this address. The engine only decides amounts and destinations; it never
/// observes whether the transfer succeeds.
#[derive(Debug, Clone, PartialEq, Eq)]
pub struct TransferMsg {
    pub to_address: String,
    pub amount: Vec<Coin>,
}

/// A queued principal withdrawal: `amount` becomes redeemable at logical
/// time `at`.
#[derive(Debug, Clone, Copy, PartialEq, Eq, Structural)]
pub struct Unlock {
    pub amount: u128,
    pub at: u64,
}

pub struct InstantiateMsg {
    pub kart_denom: String,
    pub unlock_time: u64,
    pub distribution_schedule: Vec<(u64, u64, u128, String)>,
}

pub enum ExecuteMsg {
    Stake {},
    Unstake { amount: u128 },
    Withdraw { id: usize },
    Claim {},
    Unlock { amount: u128, denom: String },
    SetDistribution { reward_denom: String, start_date: u64, end_date: u64, amount: u128 },
    UpdateConfig { config: Config },
}

pub enum QueryMsg {
    Config {},
    State { block_time: Option<u64> },
    StakerInfo { staker: String, block_time: Option<u64> },
}

#[derive(Debug, Clone, PartialEq, Eq)]
pub struct ConfigResponse {
    pub owner: String,
    pub kart_denom: String,
    pub unlock_time: u64,
    pub distribution_schedule: Vec<(u64, u64, u128, String)>,
}

#[derive(Debug, Clone, PartialEq, Eq)]
pub struct StateResponse {
    pub total_staker: u64,
    pub total_stake_amount: u128,
    pub last_distributed: u64,
    pub reward_index: DenomMap<Decimal>,
    pub reward_distributed: DenomMap<u128>,
}

#[derive(Debug, Clone, PartialEq, Eq)]
pub struct StakerInfoResponse {
    pub stake_amount: u128,
    pub pending_reward: DenomMap<u128>,
    pub reward_index: DenomMap<Decimal>,
    pub reward_claimed: DenomMap<u128>,
    pub unlock: Option<Vec<Unlock>>,
}

/// The result of a query dispatch.
pub enum QueryAnswer {
    Config(ConfigResponse),
    State(StateResponse),
    StakerInfo(StakerInfoResponse),
}

} // verus!
