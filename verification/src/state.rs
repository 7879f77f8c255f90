use vstd::prelude::*;

use crate::decimal::Decimal;
use crate::denoms::DenomMap;
use crate::msg::Unlock;

verus! {

/// The owner-governed configuration.
///
/// Every entry of `distribution_schedule` is `(start_time, end_time,
/// total_amount, reward_denom)`: a linear emission of `total_amount` units of
/// `reward_denom` over the logical-time interval `[start_time, end_time]`.
/// Entries may overlap and may repeat a denomination; all are summed
/// independently. Nothing validates `start_time < end_time` on the way in; a
/// degenerate entry surfaces as an `Arithmetic` error when the index next
/// advances across it.
#[derive(Debug, Clone, PartialEq, Eq)]
pub struct Config {
    pub owner: String,
    pub kart_denom: String,
    pub unlock_time: u64,
    pub distribution_schedule: Vec<(u64, u64, u128, String)>,
}

/// The global accounting state.
///
/// `reward_index` maps each reward denomination to the cumulative reward per
/// staked unit ever distributed while stake was non-zero; it never
/// decreases. `reward_distributed` is bookkeeping only: the cumulative
/// amount ever scheduled per denomination.
#[derive(Debug, Clone, PartialEq, Eq)]
pub struct State {
    pub total_staker: u64,
    pub total_stake_amount: u128,
    pub last_distributed: u64,
    pub reward_index: DenomMap<Decimal>,
    pub reward_distributed: DenomMap<u128>,
}

/// One staker's record. An absent record reads as the zero record
/// (`StakerInfo::new`).
///
/// `reward_index` is this staker's snapshot of the global index at the
/// moment of their last settlement; `pending_reward` is settled but
/// unclaimed; `reward_claimed` is the cumulative audit trail of payouts;
/// `unlock` queues principal withdrawals created by unstaking, `None` when
/// none are pending.
#[derive(Debug, Clone, PartialEq, Eq)]
pub struct StakerInfo {
    pub stake_amount: u128,
    pub pending_reward: DenomMap<u128>,
    pub reward_index: DenomMap<Decimal>,
    pub reward_claimed: DenomMap<u128>,
    pub unlock: Option<Vec<Unlock>>,
}

impl State {
    pub open spec fn wf(&self) -> bool {
        &&& self.reward_index.wf()
        &&& self.reward_distributed.wf()
    }
}

impl StakerInfo {
    pub open spec fn wf(&self) -> bool {
        &&& self.pending_reward.wf()
        &&& self.reward_index.wf()
        &&& self.reward_claimed.wf()
    }

    /// The zero record synthesized for a staker with no stored record.
    pub fn new() -> (r: StakerInfo)
        ensures
            r.stake_amount == 0,
            r.pending_reward@ == Seq::<(String, u128)>::empty(),
            r.reward_index@ == Seq::<(String, Decimal)>::empty(),
            r.reward_claimed@ == Seq::<(String, u128)>::empty(),
            r.unlock is None,
            r.wf(),
    {
        StakerInfo {
            stake_amount: 0,
            pending_reward: DenomMap::new(),
            reward_index: DenomMap::new(),
            reward_claimed: DenomMap::new(),
            unlock: None,
        }
    }
}

} // verus!
