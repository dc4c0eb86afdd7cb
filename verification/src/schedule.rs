use vstd::prelude::*;
use vstd::arithmetic::div_mod::{
    lemma_div_by_multiple, lemma_div_is_ordered, lemma_div_of0,
    lemma_div_pos_is_pos,
};
use vstd::arithmetic::mul::{
    lemma_mul_by_zero_is_zero, lemma_mul_inequality, lemma_mul_is_commutative,
    lemma_mul_nonnegative, lemma_mul_upper_bound,
};

verus! {

/// One whole token in base units.  Every amount and every fraction in this
/// crate is a fixed-point number with twelve fractional decimal digits.
pub const ONE: u64 = 1_000_000_000_000;

/// Seconds in one day, used to turn a vesting duration in days into a
/// schedule window in seconds.
pub const SECONDS_PER_DAY: u64 = 86400;

/// Fraction of the total (scaled by [`ONE`]) that is due `elapsed` seconds
/// into a vesting window `duration` seconds long: `f0` is due the instant the
/// window opens and the remainder unlocks linearly, saturating at [`ONE`]
/// once the window has fully elapsed.
pub open spec fn vested_fraction(f0: int, elapsed: int, duration: int) -> int {
    let capped = if elapsed >= duration {
        duration
    } else {
        elapsed
    };
    f0 + ((ONE - f0) * capped) / duration
}

/// Amount of `total` that is due `elapsed` seconds into the window.
pub open spec fn vest_target(total: int, f0: int, elapsed: int, duration: int) -> int {
    (total * vested_fraction(f0, elapsed, duration)) / ONE as int
}

/// The due fraction always lies between the initial fraction and [`ONE`].
pub proof fn lemma_fraction_bounds(f0: int, elapsed: int, duration: int)
    requires
        0 <= f0 <= ONE,
        0 < duration,
        0 <= elapsed,
    ensures
        f0 <= vested_fraction(f0, elapsed, duration) <= ONE,
{
    let capped = if elapsed >= duration {
        duration
    } else {
        elapsed
    };
    lemma_mul_nonnegative(ONE - f0, capped);
    lemma_div_pos_is_pos((ONE - f0) * capped, duration);
    lemma_mul_inequality(capped, duration, ONE - f0);
    lemma_mul_is_commutative(ONE - f0, capped);
    lemma_mul_is_commutative(ONE - f0, duration);
    lemma_div_is_ordered((ONE - f0) * capped, (ONE - f0) * duration, duration);
    lemma_div_by_multiple(ONE - f0, duration);
    lemma_mul_is_commutative(duration, ONE - f0);
}

/// The due amount always lies between zero and `total`.
pub proof fn lemma_target_bounds(total: int, f0: int, elapsed: int, duration: int)
    requires
        0 <= total,
        0 <= f0 <= ONE,
        0 < duration,
        0 <= elapsed,
    ensures
        0 <= vest_target(total, f0, elapsed, duration) <= total,
{
    lemma_fraction_bounds(f0, elapsed, duration);
    let vf = vested_fraction(f0, elapsed, duration);
    lemma_mul_nonnegative(total, vf);
    lemma_div_pos_is_pos(total * vf, ONE as int);
    lemma_mul_inequality(vf, ONE as int, total);
    lemma_mul_is_commutative(total, vf);
    lemma_mul_is_commutative(total, ONE as int);
    lemma_div_is_ordered(total * vf, total * ONE, ONE as int);
    lemma_div_by_multiple(total, ONE as int);
    lemma_mul_is_commutative(ONE as int, total);
}

/// The due amount never decreases as time advances.
pub proof fn lemma_target_monotone(total: int, f0: int, e1: int, e2: int, duration: int)
    requires
        0 <= total,
        0 <= f0 <= ONE,
        0 < duration,
        0 <= e1 <= e2,
    ensures
        vest_target(total, f0, e1, duration) <= vest_target(total, f0, e2, duration),
{
    let c1 = if e1 >= duration {
        duration
    } else {
        e1
    };
    let c2 = if e2 >= duration {
        duration
    } else {
        e2
    };
    lemma_mul_inequality(c1, c2, ONE - f0);
    lemma_mul_is_commutative(ONE - f0, c1);
    lemma_mul_is_commutative(ONE - f0, c2);
    lemma_mul_nonnegative(ONE - f0, c1);
    lemma_div_is_ordered((ONE - f0) * c1, (ONE - f0) * c2, duration);
    let vf1 = vested_fraction(f0, e1, duration);
    let vf2 = vested_fraction(f0, e2, duration);
    lemma_fraction_bounds(f0, e1, duration);
    lemma_mul_inequality(vf1, vf2, total);
    lemma_mul_is_commutative(total, vf1);
    lemma_mul_is_commutative(total, vf2);
    lemma_div_is_ordered(total * vf1, total * vf2, ONE as int);
}

/// The instant the window opens, exactly the initial fraction of the total is
/// due.
pub proof fn lemma_target_at_start(total: int, f0: int, duration: int)
    requires
        0 <= total,
        0 <= f0 <= ONE,
        0 < duration,
    ensures
        vested_fraction(f0, 0, duration) == f0,
        vest_target(total, f0, 0, duration) == (total * f0) / ONE as int,
{
    lemma_mul_by_zero_is_zero(ONE - f0);
    lemma_div_of0(duration);
}

/// Once the window has fully elapsed, the whole total is due.
pub proof fn lemma_target_at_end(total: int, f0: int, elapsed: int, duration: int)
    requires
        0 <= total,
        0 <= f0 <= ONE,
        0 < duration,
        duration <= elapsed,
    ensures
        vested_fraction(f0, elapsed, duration) == ONE,
        vest_target(total, f0, elapsed, duration) == total,
{
    lemma_div_by_multiple(ONE - f0, duration);
    lemma_mul_is_commutative(duration, ONE - f0);
    lemma_mul_is_commutative(ONE - f0, duration);
    lemma_div_by_multiple(total, ONE as int);
    lemma_mul_is_commutative(total, ONE as int);
}

/// Computes [`vest_target`] exactly, in 128-bit intermediate arithmetic.
pub fn compute_target(total: u64, f0: u64, elapsed: u64, duration: u64) -> (t: u64)
    requires
        f0 <= ONE,
        1 <= duration,
    ensures
        t == vest_target(total as int, f0 as int, elapsed as int, duration as int),
        t <= total,
{
    let capped: u64 = if elapsed >= duration {
        duration
    } else {
        elapsed
    };
    let rem: u64 = ONE - f0;
    proof {
        lemma_fraction_bounds(f0 as int, elapsed as int, duration as int);
        lemma_target_bounds(total as int, f0 as int, elapsed as int, duration as int);
        lemma_mul_upper_bound(rem as int, ONE as int, capped as int, u64::MAX as int);
        lemma_mul_nonnegative(rem as int, capped as int);
    }
    let num: u128 = (rem as u128) * (capped as u128);
    let frac: u128 = (f0 as u128) + num / (duration as u128);
    proof {
        assert(frac == vested_fraction(f0 as int, elapsed as int, duration as int));
        lemma_mul_upper_bound(total as int, u64::MAX as int, frac as int, ONE as int);
        lemma_mul_nonnegative(total as int, frac as int);
    }
    let prod: u128 = (total as u128) * frac;
    let t128: u128 = prod / (ONE as u128);
    t128 as u64
}

} // verus!
