//! The arithmetic of interest: utilization, the borrow-rate curve, the interest that falls due
//! over a span of time, and its split between depositors and reserves. All amounts are whole
//! numbers; every division rounds down.
use vstd::prelude::*;
use crate::config::{InterestRateConfig, MAX_INTEREST_RATE, RATE_SCALE};

verus! {

/// The seconds of a year of 365 days.
pub const SECONDS_PER_YEAR: u64 = 31_536_000;

/// `RATE_SCALE * SECONDS_PER_YEAR`: what a product of an amount, a yearly rate in millionths
/// and a number of seconds is divided by.
pub const YEAR_SCALE: u64 = 31_536_000_000_000;

/// The share of deposits that is lent out, in millionths and at most one whole. A bank
/// without deposits has utilization zero.
pub open spec fn utilization(total_liabilities: u64, total_deposits: u64) -> int {
    if total_deposits == 0 {
        0
    } else if total_liabilities * RATE_SCALE / (total_deposits as int) >= RATE_SCALE {
        RATE_SCALE as int
    } else {
        total_liabilities * RATE_SCALE / (total_deposits as int)
    }
}

/// The yearly borrow rate in millionths at a utilization, on the two-line curve.
pub open spec fn borrow_rate(curve: InterestRateConfig, utilization: int) -> int {
    if utilization <= curve.optimal_utilization_rate {
        curve.plateau_interest_rate * utilization / (curve.optimal_utilization_rate as int)
    } else {
        curve.plateau_interest_rate + (curve.max_interest_rate - curve.plateau_interest_rate) * (
        utilization - curve.optimal_utilization_rate) / (RATE_SCALE - curve.optimal_utilization_rate)
    }
}

/// The interest that falls due on `principal` at a yearly `rate` over `elapsed` seconds.
pub open spec fn interest_due(principal: u64, rate: int, elapsed: int) -> int {
    principal * rate * elapsed / (YEAR_SCALE as int)
}

/// The part of `interest` that a share in millionths takes.
pub open spec fn fee_share(interest: int, share: int) -> int {
    interest * share / (RATE_SCALE as int)
}

/// A product divided by something no smaller than one factor is no larger than the other.
pub proof fn lemma_scaled_part_bounded(amount: int, part: int, whole: int)
    by (nonlinear_arith)
    requires
        0 <= amount,
        0 <= part <= whole,
        0 < whole,
    ensures
        0 <= amount * part / whole <= amount,
{
    assert(amount * part <= amount * whole);
    assert(amount * whole / whole == amount);
}

/// Two shares that together are at most one whole take at most the whole amount.
pub proof fn lemma_fee_shares_bounded(interest: int, first: int, second: int)
    by (nonlinear_arith)
    requires
        0 <= interest,
        0 <= first,
        0 <= second,
        first + second <= RATE_SCALE,
    ensures
        0 <= fee_share(interest, first),
        0 <= fee_share(interest, second),
        fee_share(interest, first) + fee_share(interest, second) <= interest,
{
    let s = RATE_SCALE as int;
    let a = interest * first;
    let b = interest * second;
    assert(a + b == interest * (first + second));
    assert(a + b <= interest * s);
    assert(a / s * s <= a);
    assert(b / s * s <= b);
    assert((a / s + b / s) * s <= interest * s);
}

pub(crate) fn compute_utilization(total_liabilities: u64, total_deposits: u64) -> (u: u64)
    ensures
        u == utilization(total_liabilities, total_deposits),
        u <= RATE_SCALE,
{
    if total_deposits == 0 {
        0
    } else {
        assert(total_liabilities * RATE_SCALE <= 0xffff_ffff_ffff_ffff * 1_000_000) by (nonlinear_arith)
            requires
                total_liabilities <= 0xffff_ffff_ffff_ffff,
                RATE_SCALE == 1_000_000,
        ;
        let lent: u128 = total_liabilities as u128 * RATE_SCALE as u128;
        let ratio: u128 = lent / total_deposits as u128;
        if ratio >= RATE_SCALE as u128 {
            RATE_SCALE
        } else {
            ratio as u64
        }
    }
}

pub(crate) fn compute_borrow_rate(curve: &InterestRateConfig, u: u64) -> (rate: u64)
    requires
        curve.is_valid(),
        u <= RATE_SCALE,
    ensures
        rate == borrow_rate(*curve, u as int),
        rate <= curve.max_interest_rate,
{
    if u <= curve.optimal_utilization_rate {
        proof {
            lemma_scaled_part_bounded(curve.plateau_interest_rate as int, u as int, curve.optimal_utilization_rate as int);
            assert(curve.plateau_interest_rate * u <= 10_000_000 * 1_000_000) by (nonlinear_arith)
                requires
                    curve.plateau_interest_rate <= 10_000_000,
                    u <= 1_000_000,
            ;
        }
        curve.plateau_interest_rate * u / curve.optimal_utilization_rate
    } else {
        let rise: u64 = curve.max_interest_rate - curve.plateau_interest_rate;
        let over: u64 = u - curve.optimal_utilization_rate;
        let span: u64 = RATE_SCALE - curve.optimal_utilization_rate;
        proof {
            lemma_scaled_part_bounded(rise as int, over as int, span as int);
            assert(rise * over <= 10_000_000 * 1_000_000) by (nonlinear_arith)
                requires
                    rise <= 10_000_000,
                    over <= 1_000_000,
            ;
        }
        curve.plateau_interest_rate + rise * over / span
    }
}

pub(crate) fn compute_interest(principal: u64, rate: u64, elapsed: u64) -> (r: Option<u64>)
    requires
        rate <= MAX_INTEREST_RATE,
    ensures
        match r {
            Some(interest) => interest == interest_due(principal, rate as int, elapsed as int),
            None => interest_due(principal, rate as int, elapsed as int) > u64::MAX,
        },
{
    proof {
        assert(principal * rate <= 0xffff_ffff_ffff_ffff * 10_000_000) by (nonlinear_arith)
            requires
                principal <= 0xffff_ffff_ffff_ffff,
                rate <= 10_000_000,
        ;
    }
    let yearly: u128 = principal as u128 * rate as u128;
    match yearly.checked_mul(elapsed as u128) {
        Some(product) => {
            let interest: u128 = product / YEAR_SCALE as u128;
            if interest > u64::MAX as u128 {
                None
            } else {
                Some(interest as u64)
            }
        },
        None => None,
    }
}

pub(crate) fn compute_fee_share(interest: u64, share: u64) -> (fee: u64)
    requires
        share <= RATE_SCALE,
    ensures
        fee == fee_share(interest as int, share as int),
        fee <= interest,
{
    proof {
        lemma_scaled_part_bounded(interest as int, share as int, RATE_SCALE as int);
        assert(interest * share <= 0xffff_ffff_ffff_ffff * 1_000_000) by (nonlinear_arith)
            requires
                interest <= 0xffff_ffff_ffff_ffff,
                share <= 1_000_000,
        ;
    }
    let product: u128 = interest as u128 * share as u128;
    (product / RATE_SCALE as u128) as u64
}

} // verus!
