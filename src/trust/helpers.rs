use vstd::prelude::*;

use crate::trust::state::{Config, TrustData};

verus! {

/// One unit of score in the fixed-point representation of the formula.
pub const SCORE_UNIT: u128 = 1_000_000_000_000;

/// The highest score, in fixed-point units.
pub const MAX_SCORE: u128 = 1_500_000_000_000_000;

/// Bound at which the staking term is cut off; any staking term this large
/// already lifts the score to its maximum.
pub const STAKE_TERM_CAP: u128 = 100_000_000_000_000_000_000_000_000_000_000_000_000;

/// Integer division rounding toward zero.
pub open spec fn trunc_div(a: int, d: int) -> int {
    if a >= 0 {
        a / d
    } else {
        -((-a) / d)
    }
}

pub open spec fn min_int(a: int, b: int) -> int {
    if a <= b {
        a
    } else {
        b
    }
}

/// The staking term: staked amount over the denomination multiplier, in
/// fixed-point units, over the amount denominator, times the staking streak.
pub open spec fn stake_term(stake: int, days: int, denom_multiplier: int, denominator: int) -> int {
    (stake / denom_multiplier) * SCORE_UNIT / denominator * days
}

/// The score before clamping, in fixed-point units:
/// `base + m·R + stake_term − s·trunc(R / f)` with `R` the rating in units.
pub open spec fn raw_trust_score(data: TrustData, config: Config) -> int {
    let p = config.trust_score_params;
    let rating = data.rating * SCORE_UNIT;
    p.base_score * SCORE_UNIT + p.rating_multiplier * rating + stake_term(
        min_int(data.stake_amount as int, config.max_staked_tokens as int),
        min_int(data.stake_days as int, config.max_staked_days as int),
        p.denom_multiplier as int,
        p.stake_amount_denominator as int,
    ) - p.min_stake_days * trunc_div(rating, p.rating_floor_denominator as int)
}

/// The score in fixed-point units, clamped into `[0, 1500]`.
pub open spec fn trust_score(data: TrustData, config: Config) -> int {
    let raw = raw_trust_score(data, config);
    if raw < 0 {
        0
    } else if raw > MAX_SCORE {
        MAX_SCORE as int
    } else {
        raw
    }
}

/// The score as the atomic units of an 18-digit decimal.
pub open spec fn trust_score_atomics(data: TrustData, config: Config) -> int {
    trust_score(data, config) * 1_000_000
}

/// Relies on `cosmwasm_std::Decimal::from_atomics`: atomics with 12
/// fractional digits become a decimal with 18, that is, they are scaled by
/// 10^6; the call fails only when that leaves the 128-bit range.
#[verifier::external_body]
fn decimal_atomics_from_units(units: u128) -> (r: u128)
    requires
        units * 1_000_000 <= u128::MAX,
    ensures
        r == units * 1_000_000,
{
    cosmwasm_std::Decimal::from_atomics(units, 12).unwrap().atomics().u128()
}

/// The staking term, cut off at `STAKE_TERM_CAP`.
fn capped_stake_term(stake: u128, days: u64, denom_multiplier: u128, denominator: u64) -> (r: u128)
    requires
        denom_multiplier >= 1,
        denominator >= 1,
    ensures
        r == min_int(
            stake_term(stake as int, days as int, denom_multiplier as int, denominator as int),
            STAKE_TERM_CAP as int,
        ),
{
    let ghost term = stake_term(stake as int, days as int, denom_multiplier as int, denominator as int);
    if days == 0 {
        let ghost x = (stake as int / denom_multiplier as int) * SCORE_UNIT / denominator as int;
        assert(x * 0 == 0) by (nonlinear_arith);
        assert(term == 0);
        return 0;
    }
    let d = denominator as u128;
    let s1 = stake / denom_multiplier;
    let q = s1 / d;
    let rem = s1 % d;
    proof {
        let a = s1 as int;
        let dd = d as int;
        let u = SCORE_UNIT as int;
        let qq = q as int;
        let rr = rem as int;
        assert(a == qq * dd + rr) by {
            vstd::arithmetic::div_mod::lemma_fundamental_div_mod(a, dd);
        }
        assert(a * u == (qq * u) * dd + rr * u) by (nonlinear_arith)
            requires
                a == qq * dd + rr,
        ;
        assert((a * u) / dd == qq * u + (rr * u) / dd) by {
            vstd::arithmetic::div_mod::lemma_hoist_over_denominator(rr * u, qq * u, dd as nat);
        }
        assert(0 <= rr < dd);
        assert(rr * u < dd * u) by (nonlinear_arith)
            requires
                0 <= rr < dd,
                u > 0,
        ;
        assert(term == (a * u) / dd * (days as int));
        assert((a * u) / dd * (days as int) >= (a * u) / dd) by (nonlinear_arith)
            requires
                (a * u) / dd >= 0,
                days >= 1,
        ;
        assert((rr * u) / dd >= 0) by (nonlinear_arith)
            requires
                rr * u >= 0,
                dd > 0,
        ;
    }
    let hi = match q.checked_mul(SCORE_UNIT) {
        Some(v) => v,
        None => {
            return STAKE_TERM_CAP;
        },
    };
    let lo = rem * SCORE_UNIT / d;
    let s2 = match hi.checked_add(lo) {
        Some(v) => v,
        None => {
            return STAKE_TERM_CAP;
        },
    };
    let t = match s2.checked_mul(days as u128) {
        Some(v) => v,
        None => {
            return STAKE_TERM_CAP;
        },
    };
    if t > STAKE_TERM_CAP {
        STAKE_TERM_CAP
    } else {
        t
    }
}

/// The trust score of `trust_data`: the formula of `raw_trust_score`
/// clamped into `[0, 1500]`, as the atomic units of an 18-digit decimal.
pub fn calculate_trust_score(trust_data: TrustData, config: &Config) -> (r: u128)
    requires
        config.trust_score_params.valid(),
    ensures
        r == trust_score_atomics(trust_data, *config),
        0 <= trust_score(trust_data, *config) <= MAX_SCORE,
{
    let p = &config.trust_score_params;
    let stake = if trust_data.stake_amount > config.max_staked_tokens {
        config.max_staked_tokens
    } else {
        trust_data.stake_amount
    };
    let days = if trust_data.stake_days > config.max_staked_days {
        config.max_staked_days
    } else {
        trust_data.stake_days
    };
    let staked = capped_stake_term(stake, days, p.denom_multiplier, p.stake_amount_denominator);
    let base = p.base_score as u128 * SCORE_UNIT;
    let negative = trust_data.rating < 0;
    let magnitude: u128 = if negative {
        (-(trust_data.rating as i128)) as u128
    } else {
        trust_data.rating as u128
    };
    assert(magnitude <= 9_223_372_036_854_775_808);
    let rating_units = magnitude * SCORE_UNIT;
    let floor_units = rating_units / (p.rating_floor_denominator as u128);
    proof {
        let m = p.rating_multiplier as int;
        let s = p.min_stake_days as int;
        let x = rating_units as int;
        let y = floor_units as int;
        assert(m * x <= 1_000_000 * 9_223_372_036_854_775_808_000_000_000_000) by (nonlinear_arith)
            requires
                0 <= m <= 1_000_000,
                0 <= x <= 9_223_372_036_854_775_808_000_000_000_000,
        ;
        assert(y <= x) by {
            vstd::arithmetic::div_mod::lemma_div_is_ordered_by_denominator(
                x,
                1,
                p.rating_floor_denominator as int,
            );
        }
        assert(s * y <= 1_000_000 * 9_223_372_036_854_775_808_000_000_000_000) by (nonlinear_arith)
            requires
                0 <= s <= 1_000_000,
                0 <= y <= 9_223_372_036_854_775_808_000_000_000_000,
        ;
        assert(0 <= m * x && 0 <= s * y) by (nonlinear_arith)
            requires
                0 <= m,
                0 <= x,
                0 <= s,
                0 <= y,
        ;
        let rating = trust_data.rating * SCORE_UNIT;
        if negative {
            assert(rating == -x);
            assert(m * rating == -(m * x)) by (nonlinear_arith)
                requires
                    rating == -x,
            ;
            assert(trunc_div(rating, p.rating_floor_denominator as int) == -y);
            assert(s * (-y) == -(s * y)) by (nonlinear_arith);
        } else {
            assert(rating == x);
        }
    }
    let rating_term = p.rating_multiplier as u128 * rating_units;
    let floor_term = p.min_stake_days as u128 * floor_units;
    let plus: u128;
    let minus: u128;
    if negative {
        plus = base + staked + floor_term;
        minus = rating_term;
    } else {
        plus = base + staked + rating_term;
        minus = floor_term;
    }
    let units: u128 = if plus <= minus {
        0
    } else if plus - minus > MAX_SCORE {
        MAX_SCORE
    } else {
        plus - minus
    };
    decimal_atomics_from_units(units)
}

/// Nanoseconds in a second.
pub const NANOS_PER_SECOND: u64 = 1_000_000_000;

/// Relies on `cosmwasm_std::Timestamp::plus_seconds`: the timestamp moves on
/// by `seconds` times 10^9 nanoseconds; the call panics when that leaves u64.
#[verifier::external_body]
pub(crate) fn plus_seconds(nanos: u64, seconds: u64) -> (r: u64)
    requires
        nanos + seconds * NANOS_PER_SECOND <= u64::MAX,
    ensures
        r == nanos + seconds * NANOS_PER_SECOND,
{
    cosmwasm_std::Timestamp::from_nanos(nanos).plus_seconds(seconds).nanos()
}

} // verus!
