use vstd::prelude::*;

use crate::error::Error;
use crate::types::PolicyType;

verus! {

/// Length of the pricing year, in ledger seconds.
pub const SECONDS_PER_YEAR: u64 = 31_536_000;

/// Rates are quoted in basis points of the coverage per year.
pub const BASIS_POINTS: i128 = 10_000;

/// No policy, renewal or modification is priced below this amount.
pub const MIN_PREMIUM: i128 = 10_000;

/// The annual premium rate of each kind of policy, in basis points.
pub open spec fn annual_rate_bps(policy_type: PolicyType) -> int {
    match policy_type {
        PolicyType::Weather => 350,
        PolicyType::SmartContract => 300,
        PolicyType::Flight => 200,
        PolicyType::Health => 500,
        PolicyType::Asset => 250,
    }
}

/// Numerator of the premium fraction. A term of a year or more is charged
/// pro rata; a shorter term also carries a loading that falls linearly from
/// 100% (for a term of zero length) to nothing at a full year, so the
/// charge for a term `d` shorter than a year `Y` is `rate * d * (2Y - d) / Y`.
pub open spec fn premium_numerator(policy_type: PolicyType, coverage: int, duration: int) -> int {
    let y = SECONDS_PER_YEAR as int;
    if duration < y {
        coverage * annual_rate_bps(policy_type) * duration * (2 * y - duration)
    } else {
        coverage * annual_rate_bps(policy_type) * duration
    }
}

/// Denominator of the premium fraction.
pub open spec fn premium_denominator(duration: int) -> int {
    let y = SECONDS_PER_YEAR as int;
    if duration < y {
        BASIS_POINTS * y * y
    } else {
        BASIS_POINTS * y
    }
}

/// The premium before the minimum charge is applied.
pub open spec fn raw_premium(policy_type: PolicyType, coverage: int, duration: int) -> int {
    premium_numerator(policy_type, coverage, duration) / premium_denominator(duration)
}

/// The premium owed for `coverage` over `duration` seconds, or why none is quoted.
pub open spec fn premium_result(policy_type: PolicyType, coverage: i128, duration: u64) -> Result<i128, Error> {
    if coverage <= 0 {
        Err(Error::InvalidAmount)
    } else if duration == 0 {
        Err(Error::InvalidDuration)
    } else if premium_numerator(policy_type, coverage as int, duration as int) > i128::MAX {
        Err(Error::Overflow)
    } else {
        let raw = raw_premium(policy_type, coverage as int, duration as int);
        if raw < MIN_PREMIUM {
            Ok(MIN_PREMIUM)
        } else {
            Ok(raw as i128)
        }
    }
}

/// The annual rate of `policy_type` in basis points.
pub fn annual_rate(policy_type: &PolicyType) -> (rate: i128)
    ensures
        rate == annual_rate_bps(*policy_type),
{
    match policy_type {
        PolicyType::Weather => 350,
        PolicyType::SmartContract => 300,
        PolicyType::Flight => 200,
        PolicyType::Health => 500,
        PolicyType::Asset => 250,
    }
}

proof fn lemma_factor_grows(x: int, f: int)
    requires
        x >= 0,
        f >= 1,
    ensures
        x * f >= x,
{
    assert(x * f >= x) by (nonlinear_arith)
        requires
            x >= 0,
            f >= 1,
    ;
}

/// Prices `coverage_amount` of cover of kind `policy_type` for `duration_seconds`.
pub fn calculate_premium(policy_type: &PolicyType, coverage_amount: i128, duration_seconds: u64) -> (result: Result<i128, Error>)
    ensures
        result == premium_result(*policy_type, coverage_amount, duration_seconds),
{
    if coverage_amount <= 0 {
        return Err(Error::InvalidAmount);
    }
    if duration_seconds == 0 {
        return Err(Error::InvalidDuration);
    }
    let rate = annual_rate(policy_type);
    let d: i128 = duration_seconds as i128;
    let y: i128 = SECONDS_PER_YEAR as i128;
    let ghost c = coverage_amount as int;
    let ghost r = rate as int;
    let ghost di = d as int;
    let ghost num = premium_numerator(*policy_type, c, di);
    let short = duration_seconds < SECONDS_PER_YEAR;
    let ghost loading: int = if short { 2 * (y as int) - di } else { 1 };
    assert(num == c * r * di * loading) by {
        if !short {
            assert(c * r * di * 1 == c * r * di) by (nonlinear_arith);
        }
    }
    assert(c * r >= 1 && c * r * di >= c * r && c * r * di * loading >= c * r * di) by {
        lemma_factor_grows(c, r);
        lemma_factor_grows(c * r, di);
        lemma_factor_grows(c * r * di, loading);
    }
    let a = match coverage_amount.checked_mul(rate) {
        Some(v) => v,
        None => {
            return Err(Error::Overflow);
        },
    };
    let b = match a.checked_mul(d) {
        Some(v) => v,
        None => {
            return Err(Error::Overflow);
        },
    };
    let numerator: i128;
    let denominator: i128;
    if short {
        let l: i128 = 2 * y - d;
        numerator = match b.checked_mul(l) {
            Some(v) => v,
            None => {
                return Err(Error::Overflow);
            },
        };
        denominator = BASIS_POINTS * y * y;
    } else {
        numerator = b;
        denominator = BASIS_POINTS * y;
    }
    let raw = numerator / denominator;
    if raw < MIN_PREMIUM {
        Ok(MIN_PREMIUM)
    } else {
        Ok(raw)
    }
}

} // verus!
