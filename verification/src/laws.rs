use vstd::prelude::*;
use vstd::arithmetic::div_mod::{
    lemma_div_pos_is_pos, lemma_fundamental_div_mod, lemma_mod_division_less_than_divisor,
};
use vstd::arithmetic::mul::{lemma_mul_inequality, lemma_mul_nonnegative};
use crate::schedule::{
    lemma_target_at_end, lemma_target_at_start, lemma_target_bounds, lemma_target_monotone, ONE,
    SECONDS_PER_DAY,
};
use crate::vester::IncentivesVester;

verus! {

/// A positive vesting duration in days is a positive window in seconds.
proof fn lemma_duration_positive(v: IncentivesVester)
    requires
        v.config_wf(),
    ensures
        v.duration_seconds() >= SECONDS_PER_DAY,
{
    lemma_mul_inequality(1, v.vest_duration_days as int, SECONDS_PER_DAY as int);
}

/// Conservation: in every well-formed state, the locked vault, the pool's
/// vault and the cumulative redemption payouts together account exactly for
/// the total scheduled for vesting.  Value moves between the three; none is
/// created or destroyed.
pub proof fn lemma_conservation(v: IncentivesVester)
    requires
        v.wf(),
    ensures
        v.locked_tokens_vault + v.pool.vault_amount + v.redeemed_tokens
            == v.total_tokens_to_vest,
{
}

/// Monotonicity: a schedule refresh never lowers the cumulative vested
/// amount, and a refresh at a later instant vests at least as much as one at
/// an earlier instant; so the amount never decreases across any sequence of
/// `refill` calls, however the clock advances between them.
pub proof fn lemma_refill_monotone(v: IncentivesVester, early: u64, late: u64)
    requires
        v.wf(),
        v.scheduled(),
        v.start_time() <= early <= late,
    ensures
        v.refill_post(early).vested_tokens >= v.vested_tokens,
        v.refill_post(late).vested_tokens >= v.refill_post(early).vested_tokens,
{
    lemma_duration_positive(v);
    lemma_target_bounds(
        v.total_tokens_to_vest as int,
        v.initial_vested_fraction as int,
        early - v.start_time(),
        v.end_time() - v.start_time(),
    );
    lemma_target_bounds(
        v.total_tokens_to_vest as int,
        v.initial_vested_fraction as int,
        late - v.start_time(),
        v.end_time() - v.start_time(),
    );
    lemma_target_monotone(
        v.total_tokens_to_vest as int,
        v.initial_vested_fraction as int,
        early - v.start_time(),
        late - v.start_time(),
        v.end_time() - v.start_time(),
    );
}

/// Idempotence: refreshing the schedule twice at the same instant leaves the
/// pool's vault, the locked vault and the vested counter exactly where the
/// first refresh put them.
pub proof fn lemma_refill_idempotent(v: IncentivesVester, now: u64)
    requires
        v.wf(),
        v.scheduled(),
        now >= v.start_time(),
    ensures
        v.refill_post(now).refill_post(now).pool.vault_amount == v.refill_post(
            now,
        ).pool.vault_amount,
        v.refill_post(now).refill_post(now).locked_tokens_vault == v.refill_post(
            now,
        ).locked_tokens_vault,
        v.refill_post(now).refill_post(now).vested_tokens == v.refill_post(now).vested_tokens,
{
    lemma_duration_positive(v);
    lemma_target_bounds(
        v.total_tokens_to_vest as int,
        v.initial_vested_fraction as int,
        now - v.start_time(),
        v.end_time() - v.start_time(),
    );
    let v1 = v.refill_post(now);
    assert(v1.refill_target(now) == v.refill_target(now));
}

/// Boundary at the start of the window: the first refresh at the start
/// instant, before anything has vested or been redeemed, leaves exactly the
/// initial fraction of the total in the pool.
pub proof fn lemma_pool_at_vest_start(v: IncentivesVester, now: u64)
    requires
        v.wf(),
        v.scheduled(),
        now == v.start_time(),
        v.vested_tokens == 0,
        v.redeemed_tokens == 0,
    ensures
        v.refill_post(now).pool.vault_amount == (v.total_tokens_to_vest
            * v.initial_vested_fraction) / ONE as int,
        v.refill_post(now).locked_tokens_vault == v.total_tokens_to_vest - (v.total_tokens_to_vest
            * v.initial_vested_fraction) / ONE as int,
{
    lemma_duration_positive(v);
    lemma_target_at_start(
        v.total_tokens_to_vest as int,
        v.initial_vested_fraction as int,
        v.end_time() - v.start_time(),
    );
    lemma_target_bounds(
        v.total_tokens_to_vest as int,
        v.initial_vested_fraction as int,
        0,
        v.end_time() - v.start_time(),
    );
}

/// Boundary at the end of the window: at or after the end instant a refresh
/// empties the locked vault, and the pool holds the whole total less what
/// redemptions have already paid out.
pub proof fn lemma_vault_drained_at_vest_end(v: IncentivesVester, now: u64)
    requires
        v.wf(),
        v.scheduled(),
        now >= v.end_time(),
    ensures
        v.refill_post(now).locked_tokens_vault == 0,
        v.refill_post(now).pool.vault_amount == v.total_tokens_to_vest - v.redeemed_tokens,
        v.refill_post(now).vested_tokens == v.total_tokens_to_vest,
{
    lemma_duration_positive(v);
    lemma_target_at_end(
        v.total_tokens_to_vest as int,
        v.initial_vested_fraction as int,
        now - v.start_time(),
        v.end_time() - v.start_time(),
    );
}

/// Linear interpolation: while the current time lies inside the window, the
/// due amount is the total times the initial fraction plus the linearly
/// elapsed part of the remainder.
pub proof fn lemma_linear_unlock(v: IncentivesVester, now: u64)
    requires
        v.wf(),
        v.scheduled(),
        v.start_time() <= now <= v.end_time(),
    ensures
        v.refill_target(now) == (v.total_tokens_to_vest * (v.initial_vested_fraction + ((
        ONE - v.initial_vested_fraction) * (now - v.start_time())) / (v.end_time()
            - v.start_time()))) / ONE as int,
{
    lemma_duration_positive(v);
}

/// Forfeiture accrual: redeeming shares never lowers the at-maturity value
/// of the shares that remain.  The payout draws only the redeemed shares'
/// slice of what has already vested; their slice of the still-locked
/// remainder stays behind for a smaller supply.  Stated with both sides
/// multiplied out: eventual-holdings-per-share after the redemption is at
/// least eventual-holdings-per-share before it.
pub proof fn lemma_forfeiture_accrual(v: IncentivesVester, shares: u64)
    requires
        v.wf(),
        0 < shares < v.pool.share_supply,
    ensures
        ({
            let payout = v.pool.redemption_value(shares as int);
            let vault_after = v.pool.vault_amount - payout;
            let supply_after = v.pool.share_supply - shares;
            (vault_after + v.locked_tokens_vault) * v.pool.share_supply >= (v.pool.vault_amount
                + v.locked_tokens_vault) * supply_after
        }),
{
    let p = v.pool.vault_amount as int;
    let l = v.locked_tokens_vault as int;
    let supply = v.pool.share_supply as int;
    let s = shares as int;
    let payout = v.pool.redemption_value(s);
    lemma_mul_nonnegative(s, p);
    lemma_div_pos_is_pos(s * p, supply);
    lemma_fundamental_div_mod(s * p, supply);
    lemma_mod_division_less_than_divisor(s * p, supply);
    assert(supply * payout <= s * p);
    assert((p - payout + l) * supply >= (p + l) * (supply - s)) by (nonlinear_arith)
        requires
            supply * payout <= s * p,
            0 <= payout,
            0 <= l,
            0 <= p,
            0 < s < supply,
    ;
}

} // verus!
