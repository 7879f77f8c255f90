use vstd::prelude::*;

use crate::decimal::Decimal;
use crate::denoms::{has_pair, keys_unique, lemma_set_entry, lookup, lookup_or};
use crate::error::ContractError;
use crate::model::{
    advance_seq, dec_zero, settle_seq, settle_step, spec_advance, spec_execute, spec_settle,
    ConfigV, OutcomeV, StakerV, StateV,
};
use crate::msg::{Coin, ExecuteMsg};

verus! {

/// Every denomination `before` knows, `after` knows too, and its index has
/// not decreased.
pub open spec fn index_monotone(
    before: Seq<(String, Decimal)>,
    after: Seq<(String, Decimal)>,
) -> bool {
    forall|d: Seq<char>|
        (#[trigger] lookup(before, d)) is Some ==> lookup(after, d) is Some && lookup_or(
            before,
            d,
            dec_zero(),
        ).atomics <= lookup_or(after, d, dec_zero()).atomics
}

proof fn lemma_index_monotone_trans(
    a: Seq<(String, Decimal)>,
    b: Seq<(String, Decimal)>,
    c: Seq<(String, Decimal)>,
)
    requires
        index_monotone(a, b),
        index_monotone(b, c),
    ensures
        index_monotone(a, c),
{
}

proof fn lemma_sched_step_monotone(
    s: (u64, u64, u128, String),
    last: u64,
    now: u64,
    total: u128,
    idx: Seq<(String, Decimal)>,
    idx2: Seq<(String, Decimal)>,
)
    requires
        crate::model::sched_step(s, last, now, total, idx) == Ok::<
            Seq<(String, Decimal)>,
            ContractError,
        >(idx2),
    ensures
        index_monotone(idx, idx2),
{
    if s.0 > now || s.1 < last {
    } else {
        lemma_set_entry(idx, s.3, lookup_or(idx2, s.3@, dec_zero()));
        // the step only raises the accumulated entry for its own denomination
        assert forall|d: Seq<char>| (#[trigger] lookup(idx, d)) is Some implies lookup(idx2, d)
            is Some && lookup_or(idx, d, dec_zero()).atomics <= lookup_or(
            idx2,
            d,
            dec_zero(),
        ).atomics by {
            let hi: int = if s.1 < now {
                s.1 as int
            } else {
                now as int
            };
            let lo: int = if s.0 > last {
                s.0 as int
            } else {
                last as int
            };
            let passed: u128 = (hi - lo) as u128;
            let rate = crate::decimal::spec_from_ratio(s.2, (s.1 - s.0) as u128)->Ok_0;
            let reward = crate::decimal::spec_mul_floor(passed, rate)->Ok_0;
            let delta = crate::decimal::spec_from_ratio(reward, total)->Ok_0;
            let accumulated = crate::decimal::spec_dec_add(
                lookup_or(idx, s.3@, dec_zero()),
                delta,
            )->Ok_0;
            lemma_set_entry(idx, s.3, accumulated);
            if d == s.3@ {
                assert(lookup(idx2, d) == Some(accumulated));
            } else {
                assert(lookup(idx2, d) == lookup(idx, d));
            }
        }
    }
}

proof fn lemma_advance_seq_monotone(
    scheds: Seq<(u64, u64, u128, String)>,
    last: u64,
    now: u64,
    total: u128,
    idx: Seq<(String, Decimal)>,
    out: Seq<(String, Decimal)>,
)
    requires
        advance_seq(scheds, last, now, total, idx) == Ok::<
            Seq<(String, Decimal)>,
            ContractError,
        >(out),
    ensures
        index_monotone(idx, out),
    decreases scheds.len(),
{
    if scheds.len() == 0 {
    } else {
        let idx2 = crate::model::sched_step(scheds.first(), last, now, total, idx)->Ok_0;
        lemma_sched_step_monotone(scheds.first(), last, now, total, idx, idx2);
        lemma_advance_seq_monotone(scheds.drop_first(), last, now, total, idx2, out);
        lemma_index_monotone_trans(idx, idx2, out);
    }
}

/// Advancing the reward index never lowers any denomination's index.
pub proof fn lemma_advance_monotone(c: ConfigV, s: StateV, now: u64, s1: StateV)
    requires
        spec_advance(c, s, now) == Ok::<StateV, ContractError>(s1),
    ensures
        index_monotone(s.reward_index, s1.reward_index),
{
    if s.total_stake_amount == 0 {
    } else {
        lemma_advance_seq_monotone(
            c.distribution_schedule,
            s.last_distributed,
            now,
            s.total_stake_amount,
            s.reward_index,
            s1.reward_index,
        );
    }
}

/// Monotonicity: no action ever lowers any denomination's global reward
/// index, whatever the message, the caller, the funds or the clock. Across
/// any sequence of successful actions the index per denomination is
/// therefore non-decreasing.
pub proof fn lemma_execute_monotone(
    c: ConfigV,
    s: StateV,
    u: StakerV,
    sender: String,
    funds: Seq<Coin>,
    now: u64,
    msg: ExecuteMsg,
    out: OutcomeV,
)
    requires
        spec_execute(c, s, u, sender, funds, now, msg) == Ok::<OutcomeV, ContractError>(out),
    ensures
        index_monotone(s.reward_index, out.state.reward_index),
{
    match msg {
        ExecuteMsg::Stake {  } => {
            let s0 = StateV {
                total_staker: if u.stake_amount == 0 {
                    (s.total_staker + 1) as u64
                } else {
                    s.total_staker
                },
                total_stake_amount: s.total_stake_amount,
                last_distributed: s.last_distributed,
                reward_index: s.reward_index,
                reward_distributed: s.reward_distributed,
            };
            let s1 = spec_advance(c, s0, now)->Ok_0;
            lemma_advance_monotone(c, s0, now, s1);
        },
        ExecuteMsg::Unstake { .. } => {
            let s1 = spec_advance(c, s, now)->Ok_0;
            lemma_advance_monotone(c, s, now, s1);
        },
        ExecuteMsg::Withdraw { id } => {
            let queue = u.unlock->Some_0;
            let remaining = queue.remove(id as int);
            if remaining.len() == 0 && u.stake_amount == 0 {
                let s1 = spec_advance(c, s, now)->Ok_0;
                lemma_advance_monotone(c, s, now, s1);
            }
        },
        ExecuteMsg::Claim {  } => {
            let s1 = spec_advance(c, s, now)->Ok_0;
            lemma_advance_monotone(c, s, now, s1);
        },
        ExecuteMsg::Unlock { .. } => {},
        ExecuteMsg::SetDistribution { .. } => {},
        ExecuteMsg::UpdateConfig { .. } => {},
    }
}

/// What one settlement step stores for its denomination.
proof fn lemma_settle_step_parts(
    d: (String, Decimal),
    stake: u128,
    ri: Seq<(String, Decimal)>,
    pending: Seq<(String, u128)>,
    ri2: Seq<(String, Decimal)>,
    pending2: Seq<(String, u128)>,
)
    requires
        settle_step(d, stake, ri, pending) == Ok::<
            (Seq<(String, Decimal)>, Seq<(String, u128)>),
            ContractError,
        >((ri2, pending2)),
    ensures
        ({
            let earned = crate::decimal::spec_mul_floor(stake, d.1)->Ok_0;
            let snapped = crate::decimal::spec_mul_floor(
                stake,
                lookup_or(ri, d.0@, dec_zero()),
            )->Ok_0;
            let credited = (lookup_or(pending, d.0@, 0u128) + earned - snapped) as u128;
            &&& crate::decimal::spec_mul_floor(stake, d.1) is Ok
            &&& crate::decimal::spec_mul_floor(stake, lookup_or(ri, d.0@, dec_zero())) is Ok
            &&& earned >= snapped
            &&& lookup_or(pending, d.0@, 0u128) + earned - snapped <= u128::MAX
            &&& ri2 == crate::denoms::set_entry(ri, d.0, d.1)
            &&& pending2 == crate::denoms::set_entry(pending, d.0, credited)
            &&& lookup(ri2, d.0@) == Some(d.1)
            &&& lookup(pending2, d.0@) == Some(credited)
            &&& has_pair(ri2, (d.0, d.1))
            &&& has_pair(pending2, (d.0, credited))
            &&& (forall|k: Seq<char>| k != d.0@ ==> #[trigger] lookup(ri2, k) == lookup(ri, k))
            &&& (forall|k: Seq<char>|
                k != d.0@ ==> #[trigger] lookup(pending2, k) == lookup(pending, k))
            &&& (keys_unique(ri) ==> keys_unique(ri2))
            &&& (keys_unique(pending) ==> keys_unique(pending2))
            &&& (forall|p: (String, Decimal)|
                p.0@ != d.0@ ==> (#[trigger] has_pair(ri2, p) <==> has_pair(ri, p)))
            &&& (forall|p: (String, u128)|
                p.0@ != d.0@ ==> (#[trigger] has_pair(pending2, p) <==> has_pair(pending, p)))
        }),
{
    let earned = crate::decimal::spec_mul_floor(stake, d.1)->Ok_0;
    let snapped = crate::decimal::spec_mul_floor(stake, lookup_or(ri, d.0@, dec_zero()))->Ok_0;
    let credited = (lookup_or(pending, d.0@, 0u128) + earned - snapped) as u128;
    lemma_set_entry(ri, d.0, d.1);
    lemma_set_entry(pending, d.0, credited);
}

/// Settlement leaves every denomination outside its global index untouched,
/// both as a mapping and entry by entry.
proof fn lemma_settle_seq_frame(
    g: Seq<(String, Decimal)>,
    stake: u128,
    ri: Seq<(String, Decimal)>,
    pending: Seq<(String, u128)>,
    ri2: Seq<(String, Decimal)>,
    pending2: Seq<(String, u128)>,
    k: Seq<char>,
)
    requires
        settle_seq(g, stake, ri, pending) == Ok::<
            (Seq<(String, Decimal)>, Seq<(String, u128)>),
            ContractError,
        >((ri2, pending2)),
        forall|i: int| 0 <= i < g.len() ==> g[i].0@ != k,
    ensures
        lookup(ri2, k) == lookup(ri, k),
        lookup(pending2, k) == lookup(pending, k),
        forall|p: (String, Decimal)| p.0@ == k ==> (#[trigger] has_pair(ri2, p) <==> has_pair(ri, p)),
        forall|p: (String, u128)|
            p.0@ == k ==> (#[trigger] has_pair(pending2, p) <==> has_pair(pending, p)),
    decreases g.len(),
{
    if g.len() == 0 {
    } else {
        let d = g.first();
        let step = settle_step(d, stake, ri, pending)->Ok_0;
        lemma_settle_step_parts(d, stake, ri, pending, step.0, step.1);
        assert(d.0@ != k);
        assert forall|i: int| 0 <= i < g.drop_first().len() implies g.drop_first()[i].0@ != k by {
            assert(g.drop_first()[i] == g[i + 1]);
        }
        lemma_settle_seq_frame(g.drop_first(), stake, step.0, step.1, ri2, pending2, k);
    }
}

/// Settlement preserves unique keys on both staker maps.
proof fn lemma_settle_seq_unique(
    g: Seq<(String, Decimal)>,
    stake: u128,
    ri: Seq<(String, Decimal)>,
    pending: Seq<(String, u128)>,
    ri2: Seq<(String, Decimal)>,
    pending2: Seq<(String, u128)>,
)
    requires
        keys_unique(ri),
        keys_unique(pending),
        settle_seq(g, stake, ri, pending) == Ok::<
            (Seq<(String, Decimal)>, Seq<(String, u128)>),
            ContractError,
        >((ri2, pending2)),
    ensures
        keys_unique(ri2),
        keys_unique(pending2),
    decreases g.len(),
{
    if g.len() == 0 {
    } else {
        let d = g.first();
        let step = settle_step(d, stake, ri, pending)->Ok_0;
        lemma_settle_step_parts(d, stake, ri, pending, step.0, step.1);
        lemma_settle_seq_unique(g.drop_first(), stake, step.0, step.1, ri2, pending2);
    }
}

/// What a whole settlement run leaves under the denomination of entry `i` of
/// the global index: the snapshot becomes the global value and pending grows
/// by exactly the difference of the two floored products, computed against
/// the maps as they stood before the run.
proof fn lemma_settle_seq_at(
    g: Seq<(String, Decimal)>,
    stake: u128,
    ri: Seq<(String, Decimal)>,
    pending: Seq<(String, u128)>,
    ri2: Seq<(String, Decimal)>,
    pending2: Seq<(String, u128)>,
    i: int,
)
    requires
        keys_unique(g),
        settle_seq(g, stake, ri, pending) == Ok::<
            (Seq<(String, Decimal)>, Seq<(String, u128)>),
            ContractError,
        >((ri2, pending2)),
        0 <= i < g.len(),
    ensures
        ({
            let k = g[i].0@;
            let earned_r = crate::decimal::spec_mul_floor(stake, g[i].1);
            let snapped_r = crate::decimal::spec_mul_floor(stake, lookup_or(ri, k, dec_zero()));
            &&& earned_r is Ok
            &&& snapped_r is Ok
            &&& earned_r->Ok_0 >= snapped_r->Ok_0
            &&& lookup_or(pending, k, 0u128) + earned_r->Ok_0 - snapped_r->Ok_0 <= u128::MAX
            &&& lookup(ri2, k) == Some(g[i].1)
            &&& has_pair(ri2, (g[i].0, g[i].1))
            &&& lookup(pending2, k) == Some(
                (lookup_or(pending, k, 0u128) + earned_r->Ok_0 - snapped_r->Ok_0) as u128,
            )
            &&& has_pair(
                pending2,
                (g[i].0, (lookup_or(pending, k, 0u128) + earned_r->Ok_0 - snapped_r->Ok_0) as u128),
            )
        }),
    decreases g.len(),
{
    let d = g.first();
    let step = settle_step(d, stake, ri, pending)->Ok_0;
    lemma_settle_step_parts(d, stake, ri, pending, step.0, step.1);
    assert(keys_unique(g.drop_first())) by {
        assert(forall|a: int, b: int|
            0 <= a < b < g.drop_first().len() ==> g.drop_first()[a] == g[a + 1]
                && g.drop_first()[b] == g[b + 1]);
    }
    if i == 0 {
        assert forall|j: int| 0 <= j < g.drop_first().len() implies g.drop_first()[j].0@ != d.0@ by {
            assert(g.drop_first()[j] == g[j + 1]);
        }
        lemma_settle_seq_frame(g.drop_first(), stake, step.0, step.1, ri2, pending2, d.0@);
    } else {
        assert(g.drop_first()[i - 1] == g[i]);
        assert(g[i].0@ != d.0@);
        lemma_settle_seq_at(g.drop_first(), stake, step.0, step.1, ri2, pending2, i - 1);
        assert(lookup(step.0, g[i].0@) == lookup(ri, g[i].0@));
        assert(lookup(step.1, g[i].0@) == lookup(pending, g[i].0@));
    }
}

/// Idempotent settlement at the level of the two staker maps: a second run
/// over the same global index finds every snapshot already at the global
/// value, accrues zero everywhere, and rewrites every entry with the very
/// pair it already holds.
proof fn lemma_settle_seq_idempotent(
    g: Seq<(String, Decimal)>,
    stake: u128,
    ri: Seq<(String, Decimal)>,
    pending: Seq<(String, u128)>,
    ri2: Seq<(String, Decimal)>,
    pending2: Seq<(String, u128)>,
)
    requires
        keys_unique(g),
        keys_unique(ri),
        keys_unique(pending),
        settle_seq(g, stake, ri, pending) == Ok::<
            (Seq<(String, Decimal)>, Seq<(String, u128)>),
            ContractError,
        >((ri2, pending2)),
    ensures
        settle_seq(g, stake, ri2, pending2) == Ok::<
            (Seq<(String, Decimal)>, Seq<(String, u128)>),
            ContractError,
        >((ri2, pending2)),
    decreases g.len(),
{
    if g.len() == 0 {
    } else {
        let d = g.first();
        let step = settle_step(d, stake, ri, pending)->Ok_0;
        lemma_settle_step_parts(d, stake, ri, pending, step.0, step.1);
        let earned = crate::decimal::spec_mul_floor(stake, d.1)->Ok_0;
        let credited = (lookup_or(pending, d.0@, 0u128) + earned - crate::decimal::spec_mul_floor(
            stake,
            lookup_or(ri, d.0@, dec_zero()),
        )->Ok_0) as u128;
        assert(keys_unique(g.drop_first())) by {
            assert(forall|a: int, b: int|
                0 <= a < b < g.drop_first().len() ==> g.drop_first()[a] == g[a + 1]
                    && g.drop_first()[b] == g[b + 1]);
        }
        assert forall|j: int| 0 <= j < g.drop_first().len() implies g.drop_first()[j].0@ != d.0@ by {
            assert(g.drop_first()[j] == g[j + 1]);
        }
        lemma_settle_seq_frame(g.drop_first(), stake, step.0, step.1, ri2, pending2, d.0@);
        lemma_settle_seq_unique(g.drop_first(), stake, step.0, step.1, ri2, pending2);
        // the second run's step reads the checkpointed snapshot and accrues zero
        assert(lookup(ri2, d.0@) == Some(d.1));
        assert(lookup(pending2, d.0@) == Some(credited));
        assert(has_pair(ri2, (d.0, d.1)));
        assert(has_pair(pending2, (d.0, credited)));
        let ir = choose|ir: int| 0 <= ir < ri2.len() && ri2[ir] == (d.0, d.1);
        crate::denoms::lemma_set_entry_same(ri2, d.0, d.1, ir);
        let ip = choose|ip: int| 0 <= ip < pending2.len() && pending2[ip] == (d.0, credited);
        crate::denoms::lemma_set_entry_same(pending2, d.0, credited, ip);
        assert(settle_step(d, stake, ri2, pending2) == Ok::<
            (Seq<(String, Decimal)>, Seq<(String, u128)>),
            ContractError,
        >((ri2, pending2)));
        lemma_settle_seq_idempotent(g.drop_first(), stake, step.0, step.1, ri2, pending2);
    }
}

/// Idempotent settlement: settling a staker twice against the same global
/// index leaves the record exactly as after the first settlement; in
/// particular no pending reward accrues the second time.
pub proof fn lemma_settle_idempotent(s: StateV, u: StakerV, u1: StakerV)
    requires
        s.wf(),
        u.wf(),
        spec_settle(s, u) == Ok::<StakerV, ContractError>(u1),
    ensures
        spec_settle(s, u1) == Ok::<StakerV, ContractError>(u1),
{
    lemma_settle_seq_idempotent(
        s.reward_index,
        u.stake_amount,
        u.reward_index,
        u.pending_reward,
        u1.reward_index,
        u1.pending_reward,
    );
}

/// Conservation under settlement, for every denomination the global index
/// knows: settlement moves the staker's entitlement
/// `stake * (global_index - snapshot)` into `pending_reward`, exactly up to
/// the fixed-point floor rounding of the two products — the credited amount
/// differs from the entitlement by strictly less than one atomic-unit
/// quantum (`FRACTIONAL` in the scaled integers below) — and checkpoints the
/// snapshot at the global value. Stake, claimed totals and the unlock queue
/// do not move.
pub proof fn lemma_settle_conservation(s: StateV, u: StakerV, u1: StakerV, d: Seq<char>)
    requires
        s.wf(),
        u.wf(),
        spec_settle(s, u) == Ok::<StakerV, ContractError>(u1),
        lookup(s.reward_index, d) is Some,
    ensures
        ({
            let stake = u.stake_amount as int;
            let g_at = lookup_or(s.reward_index, d, dec_zero()).atomics as int;
            let snap_at = lookup_or(u.reward_index, d, dec_zero()).atomics as int;
            let before = lookup_or(u.pending_reward, d, 0u128) as int;
            let after = lookup_or(u1.pending_reward, d, 0u128) as int;
            &&& lookup(u1.reward_index, d) == lookup(s.reward_index, d)
            &&& u1.stake_amount == u.stake_amount
            &&& u1.reward_claimed == u.reward_claimed
            &&& u1.unlock == u.unlock
            &&& stake * g_at - stake * snap_at - crate::decimal::FRACTIONAL < (after - before)
                * crate::decimal::FRACTIONAL
            &&& (after - before) * crate::decimal::FRACTIONAL < stake * g_at - stake * snap_at
                + crate::decimal::FRACTIONAL
        }),
{
    let g = s.reward_index;
    let i = crate::denoms::lemma_lookup_some_index(g, d);
    lemma_settle_seq_at(
        g,
        u.stake_amount,
        u.reward_index,
        u.pending_reward,
        u1.reward_index,
        u1.pending_reward,
        i,
    );
    let f = crate::decimal::FRACTIONAL as int;
    let stake = u.stake_amount as int;
    let g_at = lookup_or(s.reward_index, d, dec_zero()).atomics as int;
    let snap_at = lookup_or(u.reward_index, d, dec_zero()).atomics as int;
    let a = stake * g_at;
    let b = stake * snap_at;
    vstd::arithmetic::div_mod::lemma_fundamental_div_mod(a, f);
    vstd::arithmetic::div_mod::lemma_mod_bound(a, f);
    vstd::arithmetic::div_mod::lemma_fundamental_div_mod(b, f);
    vstd::arithmetic::div_mod::lemma_mod_bound(b, f);
    let earned = crate::decimal::spec_mul_floor(u.stake_amount, g[i].1)->Ok_0;
    let snapped = crate::decimal::spec_mul_floor(
        u.stake_amount,
        lookup_or(u.reward_index, d, dec_zero()),
    )->Ok_0;
    assert(earned == a / f);
    assert(snapped == b / f);
    let before = lookup_or(u.pending_reward, d, 0u128) as int;
    let after = lookup_or(u1.pending_reward, d, 0u128) as int;
    assert(after == before + earned - snapped);
    assert((earned - snapped) * f == earned * f - snapped * f) by (nonlinear_arith);
    assert(earned * f == a - a % f) by (nonlinear_arith)
        requires
            a == f * (a / f) + a % f,
            earned == a / f,
    ;
    assert(snapped * f == b - b % f) by (nonlinear_arith)
        requires
            b == f * (b / f) + b % f,
            snapped == b / f,
    ;
}

/// One staker's entitlement in denomination `d` against global index `g`:
/// what the index still owes them, `stake * (g - snapshot)`, plus what
/// settlement has already credited as pending. Everything is counted in
/// index atomics, so pending whole units are scaled by `FRACTIONAL`.
pub open spec fn entitlement(g: Seq<(String, Decimal)>, u: StakerV, d: Seq<char>) -> int {
    u.stake_amount * lookup_or(g, d, dec_zero()).atomics - u.stake_amount * lookup_or(
        u.reward_index,
        d,
        dec_zero(),
    ).atomics + lookup_or(u.pending_reward, d, 0u128) * crate::decimal::FRACTIONAL
}

/// The sum of `entitlement` over a population of stakers.
pub open spec fn total_entitlement(
    g: Seq<(String, Decimal)>,
    stakers: Seq<StakerV>,
    d: Seq<char>,
) -> int
    decreases stakers.len(),
{
    if stakers.len() == 0 {
        0
    } else {
        entitlement(g, stakers.first(), d) + total_entitlement(g, stakers.drop_first(), d)
    }
}

proof fn lemma_total_entitlement_update(
    g: Seq<(String, Decimal)>,
    stakers: Seq<StakerV>,
    d: Seq<char>,
    i: int,
    v: StakerV,
)
    requires
        0 <= i < stakers.len(),
    ensures
        total_entitlement(g, stakers.update(i, v), d) == total_entitlement(g, stakers, d)
            - entitlement(g, stakers[i], d) + entitlement(g, v, d),
    decreases stakers.len(),
{
    if i == 0 {
        assert(stakers.update(0, v).first() == v);
        assert(stakers.update(0, v).drop_first() =~= stakers.drop_first());
    } else {
        assert(stakers.update(i, v).first() == stakers.first());
        assert(stakers.update(i, v).drop_first() =~= stakers.drop_first().update(i - 1, v));
        lemma_total_entitlement_update(g, stakers.drop_first(), d, i - 1, v);
    }
}

/// Conservation over the whole population: settling any one staker moves
/// value between the index gap and the pending balance but leaves the sum of
/// all stakers' entitlements unchanged up to the fixed-point rounding of
/// strictly less than one whole reward unit (`FRACTIONAL` atomics), for
/// every denomination the global index knows. Only the acting staker's
/// record changes; the rest of the population is untouched by construction.
pub proof fn lemma_conservation_sum(
    s: StateV,
    stakers: Seq<StakerV>,
    i: int,
    u1: StakerV,
    d: Seq<char>,
)
    requires
        s.wf(),
        0 <= i < stakers.len(),
        stakers[i].wf(),
        spec_settle(s, stakers[i]) == Ok::<StakerV, ContractError>(u1),
        lookup(s.reward_index, d) is Some,
    ensures
        ({
            let before = total_entitlement(s.reward_index, stakers, d);
            let after = total_entitlement(s.reward_index, stakers.update(i, u1), d);
            &&& before - crate::decimal::FRACTIONAL < after
            &&& after < before + crate::decimal::FRACTIONAL
        }),
{
    lemma_settle_conservation(s, stakers[i], u1, d);
    lemma_total_entitlement_update(s.reward_index, stakers, d, i, u1);
    let f = crate::decimal::FRACTIONAL as int;
    let u = stakers[i];
    let stake = u.stake_amount as int;
    let g_at = lookup_or(s.reward_index, d, dec_zero()).atomics as int;
    let snap_at = lookup_or(u.reward_index, d, dec_zero()).atomics as int;
    let before_p = lookup_or(u.pending_reward, d, 0u128) as int;
    let after_p = lookup_or(u1.pending_reward, d, 0u128) as int;
    assert(entitlement(s.reward_index, u1, d) == after_p * f);
    assert(entitlement(s.reward_index, u, d) == stake * g_at - stake * snap_at + before_p * f);
    assert((after_p - before_p) * f == after_p * f - before_p * f) by (nonlinear_arith);
}

/// Settlement touches only denominations the global index knows: any other
/// denomination's snapshot and pending reward are exactly as before.
pub proof fn lemma_settle_untouched(s: StateV, u: StakerV, u1: StakerV, d: Seq<char>)
    requires
        spec_settle(s, u) == Ok::<StakerV, ContractError>(u1),
        lookup(s.reward_index, d) is None,
    ensures
        lookup(u1.reward_index, d) == lookup(u.reward_index, d),
        lookup(u1.pending_reward, d) == lookup(u.pending_reward, d),
{
    crate::denoms::lemma_lookup_none_no_key(s.reward_index, d);
    lemma_settle_seq_frame(
        s.reward_index,
        u.stake_amount,
        u.reward_index,
        u.pending_reward,
        u1.reward_index,
        u1.pending_reward,
        d,
    );
}

/// Principal consistency: whatever the action, the global stake total moves
/// by exactly what the acting staker's own stake moves — reward accrual,
/// settlement and payouts never touch principal, and a record is only ever
/// deleted once its stake is zero. The host serializes actions and each
/// action touches one staker, so the sum of all stakes tracks the global
/// total action by action.
pub proof fn lemma_principal_consistency(
    c: ConfigV,
    s: StateV,
    u: StakerV,
    sender: String,
    funds: Seq<Coin>,
    now: u64,
    msg: ExecuteMsg,
    out: OutcomeV,
)
    requires
        spec_execute(c, s, u, sender, funds, now, msg) == Ok::<OutcomeV, ContractError>(out),
    ensures
        match out.staker {
            Some(u1) => out.state.total_stake_amount - s.total_stake_amount == u1.stake_amount
                - u.stake_amount,
            None => u.stake_amount == 0 && out.state.total_stake_amount == s.total_stake_amount,
        },
{
}

/// Zero-stake accrual: over an interval with nothing staked, no index delta
/// accrues for any denomination, whatever schedules are active; only the
/// checkpoint `last_distributed` moves. Rewards scheduled across such a
/// window are lost to the pool by design.
pub proof fn lemma_zero_stake_accrual(c: ConfigV, s: StateV, now: u64)
    requires
        s.total_stake_amount == 0,
    ensures
        spec_advance(c, s, now) == Ok::<StateV, ContractError>(
            StateV {
                total_staker: s.total_staker,
                total_stake_amount: s.total_stake_amount,
                last_distributed: now,
                reward_index: s.reward_index,
                reward_distributed: s.reward_distributed,
            },
        ),
{
}

} // verus!
