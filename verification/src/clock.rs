//! Timestamps are Unix milliseconds held in an `i64`. Spans between two
//! timestamps are measured exactly; sums that leave the `i64` range stop at
//! its ends.

use vstd::prelude::*;

verus! {

/// Milliseconds in a second, a minute, an hour and a day.
pub const SECOND_MS: i64 = 1_000;

pub const MINUTE_MS: i64 = 60_000;

pub const HOUR_MS: i64 = 3_600_000;

pub const DAY_MS: i64 = 86_400_000;

/// How many whole `unit`s lie in `span`, rounded toward zero.
pub open spec fn whole_units(span: int, unit: int) -> int
    recommends
        unit > 0,
{
    if span >= 0 {
        span / unit
    } else {
        -((-span) / unit)
    }
}

/// `value` held to the range of `i64`.
pub open spec fn clamp_i64(value: int) -> i64 {
    if value > i64::MAX {
        i64::MAX
    } else if value < i64::MIN {
        i64::MIN
    } else {
        value as i64
    }
}

/// Whether less than `window` milliseconds have passed between `then` and `now`.
/// A `then` that lies after `now` counts as inside every positive window.
pub fn is_within(now: i64, then: i64, window: i64) -> (inside: bool)
    ensures
        inside == (now - then < window),
{
    (now as i128) - (then as i128) < (window as i128)
}

fn units_between(now: i64, then: i64, unit: i64) -> (n: i64)
    requires
        unit >= 2,
    ensures
        n == whole_units(now - then, unit as int),
{
    let span: i128 = (now as i128) - (then as i128);
    let step: i128 = unit as i128;
    if span >= 0 {
        let q: i128 = span / step;
        assert(0 <= q <= span) by (nonlinear_arith)
            requires
                span >= 0,
                step >= 2,
                q == span / step,
        ;
        assert(q <= i64::MAX) by (nonlinear_arith)
            requires
                0 <= span <= 0xffff_ffff_ffff_ffff,
                step >= 2,
                q == span / step,
        ;
        q as i64
    } else {
        let back: i128 = -span;
        let q: i128 = back / step;
        assert(0 <= q <= i64::MAX) by (nonlinear_arith)
            requires
                0 <= back <= 0xffff_ffff_ffff_ffff,
                step >= 2,
                q == back / step,
        ;
        (-q) as i64
    }
}

/// Whole seconds from `then` to `now`, rounded toward zero.
pub fn seconds_between(now: i64, then: i64) -> (n: i64)
    ensures
        n == whole_units(now - then, SECOND_MS as int),
{
    units_between(now, then, SECOND_MS)
}

/// Whole minutes from `then` to `now`, rounded toward zero.
pub fn minutes_between(now: i64, then: i64) -> (n: i64)
    ensures
        n == whole_units(now - then, MINUTE_MS as int),
{
    units_between(now, then, MINUTE_MS)
}

/// The timestamp `span` milliseconds after `t`, held to the range of `i64`.
pub fn later(t: i64, span: i64) -> (r: i64)
    ensures
        r == clamp_i64(t + span),
{
    let sum: i128 = (t as i128) + (span as i128);
    if sum > i64::MAX as i128 {
        i64::MAX
    } else if sum < i64::MIN as i128 {
        i64::MIN
    } else {
        sum as i64
    }
}

/// The timestamp `minutes` minutes after `t`, held to the range of `i64`.
pub fn later_by_minutes(t: i64, minutes: i64) -> (r: i64)
    ensures
        r == clamp_i64(t + minutes * MINUTE_MS),
{
    let span: i128 = (minutes as i128) * 60_000;
    let sum: i128 = (t as i128) + span;
    if sum > i64::MAX as i128 {
        i64::MAX
    } else if sum < i64::MIN as i128 {
        i64::MIN
    } else {
        sum as i64
    }
}

} // verus!
