//! A time-weighted, multi-asset staking-reward accounting engine.
//!
//! Users stake a configured token, accrue rewards in one or more reward
//! denominations according to owner-defined linear distribution schedules,
//! and later withdraw principal after a cooldown and claim accrued rewards.
//!
//! The engine is pure: every action is a function from the loaded records
//! (configuration, global state, the acting staker's record), the caller and
//! the logical clock to new records and transfer instructions, or to an
//! error that aborts the whole action. Persistence, value movement and
//! identity belong to the host, which threads the records through these
//! functions and commits or discards them atomically.
//!
//! - [`state`] holds the records, [`msg`] the action and query surface.
//! - [`decimal`] is the fixed-point arithmetic, [`denoms`] the ordered
//!   per-denomination maps.
//! - [`reward`] is the accrual core: the global index engine and the
//!   per-staker settlement engine.
//! - [`contract`] is the lifecycle controller and the query service.
//! - [`model`] states what each of these means over ghost values, and
//!   [`laws`] proves the global guarantees: index monotonicity, conservation
//!   of entitlement under settlement, idempotent settlement and zero-stake
//!   accrual.

pub mod contract;
pub mod decimal;
pub mod denoms;
pub mod error;
pub mod laws;
pub mod model;
pub mod msg;
pub mod reward;
pub mod state;
