use vstd::prelude::*;

verus! {

/// Every way an action can fail. An error aborts the whole action: the host
/// discards all writes, so no function here mutates anything before it can
/// still fail.
#[derive(Clone, Copy, Debug, PartialEq, Eq, Structural)]
pub enum ContractError {
    /// The caller of an owner-only action is not the configured owner.
    Unauthorized,
    /// An unstake asks for more than the staker's current stake.
    InsufficientToken,
    /// A stake carries zero funds.
    InvalidAmount,
    /// A stake carries the wrong denomination, or not exactly one kind of fund.
    UnsupportedToken,
    /// A withdraw names a missing unlock entry: no pending unlocks at all, or
    /// an index out of range.
    InvalidWithdrawIndex,
    /// A withdraw comes before the named entry's cooldown has elapsed.
    WithdrawLocked,
    /// Integer overflow or underflow in the accounting arithmetic, including
    /// a division by zero from a schedule of empty duration and a negative
    /// accrual interval from a clock that ran backwards.
    Arithmetic,
}

} // verus!
