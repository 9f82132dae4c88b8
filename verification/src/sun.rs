//! The sun-curve brightness calculator.
//!
//! A pure, piecewise function from a time of day (seconds since midnight)
//! to a target brightness percentage: 1 before the morning ramp and after
//! the evening ramp, 100 on the midday plateau, and a linear ramp between
//! them.  The boundaries either derive from computed sunrise/sunset times
//! or fall back to fixed clock times.

use vstd::prelude::*;

verus! {

/// 06:00, start of the fallback morning ramp, in seconds since midnight.
pub const FALLBACK_UP_BEGIN: u32 = 21600;

/// 10:00, end of the fallback morning ramp.
pub const FALLBACK_UP_END: u32 = 36000;

/// 18:00, start of the fallback evening ramp.
pub const FALLBACK_DOWN_BEGIN: u32 = 64800;

/// 22:00, end of the fallback evening ramp.
pub const FALLBACK_DOWN_END: u32 = 79200;

/// Length of a brightness transition (4 hours), in seconds.
pub const TRANSITION_SECONDS: u32 = 14400;

/// Seconds in a day.
pub const SECONDS_PER_DAY: u32 = 86400;

/// Value of a ramp at `elapsed` seconds into a transition of `duration`
/// seconds: `round(99 * elapsed / duration) + 1`, written with the exact
/// rational rounding `round(a / b) == (2 * a + b) / (2 * b)` for
/// non-negative `a` and positive `b`.
pub open spec fn ramp_value(elapsed: int, duration: int) -> int {
    (198 * elapsed + duration) / (2 * duration) + 1
}

/// The brightness percentage at time `now` for ordered ramp boundaries
/// `up_begin < up_end < down_begin < down_end` (all in seconds since
/// midnight): 1 outside the bright window, 100 on the plateau, and a
/// linear ramp in between.  Boundary points belong to the ramps, so the
/// curve is continuous at the plateau edges.
pub open spec fn sun_curve(
    now: int,
    up_begin: int,
    up_end: int,
    down_begin: int,
    down_end: int,
) -> int {
    if now < up_begin || now > down_end {
        1
    } else if up_end < now && now < down_begin {
        100
    } else if up_begin <= now && now <= up_end {
        ramp_value(now - up_begin, up_end - up_begin)
    } else {
        ramp_value(down_end - now, down_end - down_begin)
    }
}

/// Evaluates one linear ramp step.
fn ramp(elapsed: u32, duration: u32) -> (r: u8)
    requires
        0 < duration,
        elapsed <= duration,
    ensures
        r == ramp_value(elapsed as int, duration as int),
        1 <= r <= 100,
{
    let num: u64 = 198u64 * (elapsed as u64) + (duration as u64);
    let den: u64 = 2u64 * (duration as u64);
    let q: u64 = num / den;
    proof {
        let d = duration as int;
        assert(num <= 199 * d);
        assert((199 * d) / (2 * d) == 99) by (nonlinear_arith)
            requires d >= 1;
        vstd::arithmetic::div_mod::lemma_div_is_ordered(num as int, 199 * d, 2 * d);
    }
    (q + 1) as u8
}

/// Computes the target brightness percentage for time `now` given ordered
/// ramp boundaries, all in seconds since midnight.
pub fn compute_brightness_percentage(
    now: u32,
    brightness_up_begin: u32,
    brightness_up_end: u32,
    brightness_down_begin: u32,
    brightness_down_end: u32,
) -> (r: u8)
    requires
        brightness_up_begin < brightness_up_end,
        brightness_up_end < brightness_down_begin,
        brightness_down_begin < brightness_down_end,
    ensures
        r == sun_curve(
            now as int,
            brightness_up_begin as int,
            brightness_up_end as int,
            brightness_down_begin as int,
            brightness_down_end as int,
        ),
        1 <= r <= 100,
{
    if now < brightness_up_begin || now > brightness_down_end {
        1
    } else if brightness_up_end < now && now < brightness_down_begin {
        100
    } else if now <= brightness_up_end {
        ramp(now - brightness_up_begin, brightness_up_end - brightness_up_begin)
    } else {
        ramp(brightness_down_end - now, brightness_down_end - brightness_down_begin)
    }
}

/// A time of day moved forward by one transition, wrapping at midnight.
pub open spec fn plus_transition(t: int) -> int {
    if t + TRANSITION_SECONDS < SECONDS_PER_DAY {
        t + TRANSITION_SECONDS
    } else {
        t + TRANSITION_SECONDS - SECONDS_PER_DAY
    }
}

/// Whether computed sunrise/sunset times of day yield ordered ramp
/// boundaries once each transition end wraps at midnight.  Near the poles
/// (or for degenerate inputs) they need not, and the caller then falls
/// back to the clock-only curve.
pub open spec fn sun_times_usable(sunrise: int, sunset: int) -> bool {
    &&& sunrise < plus_transition(sunrise)
    &&& plus_transition(sunrise) < sunset
    &&& sunset < plus_transition(sunset)
}

/// The target brightness at time `now` for the given sunrise and sunset
/// times of day (all in seconds since midnight): the morning ramp starts
/// at sunrise and the evening ramp at sunset, each one transition long.
/// Yields nothing when the boundaries do not order themselves.
pub fn get_brightness_based_on_sun_times(now: u32, sunrise: u32, sunset: u32) -> (r: Option<u8>)
    requires
        sunrise < SECONDS_PER_DAY,
        sunset < SECONDS_PER_DAY,
    ensures
        sun_times_usable(sunrise as int, sunset as int) ==> (r matches Some(b) && b == sun_curve(
            now as int,
            sunrise as int,
            plus_transition(sunrise as int),
            sunset as int,
            plus_transition(sunset as int),
        ) && 1 <= b <= 100),
        !sun_times_usable(sunrise as int, sunset as int) ==> r is None,
{
    let up_end = if sunrise + TRANSITION_SECONDS < SECONDS_PER_DAY {
        sunrise + TRANSITION_SECONDS
    } else {
        sunrise + TRANSITION_SECONDS - SECONDS_PER_DAY
    };
    let down_end = if sunset + TRANSITION_SECONDS < SECONDS_PER_DAY {
        sunset + TRANSITION_SECONDS
    } else {
        sunset + TRANSITION_SECONDS - SECONDS_PER_DAY
    };
    if sunrise < up_end && up_end < sunset && sunset < down_end {
        Some(compute_brightness_percentage(now, sunrise, up_end, sunset, down_end))
    } else {
        None
    }
}

/// Law: on the boundaries of any ordered ramp quadruple the curve takes
/// its extreme values - 1 where the ramps meet the night, 100 where they
/// meet the plateau - so the curve is continuous at all four corners.
pub proof fn lemma_sun_curve_boundary_points(
    up_begin: int,
    up_end: int,
    down_begin: int,
    down_end: int,
)
    requires
        up_begin < up_end,
        up_end < down_begin,
        down_begin < down_end,
    ensures
        sun_curve(up_begin, up_begin, up_end, down_begin, down_end) == 1,
        sun_curve(up_end, up_begin, up_end, down_begin, down_end) == 100,
        sun_curve(down_begin, up_begin, up_end, down_begin, down_end) == 100,
        sun_curve(down_end, up_begin, up_end, down_begin, down_end) == 1,
{
    let du = up_end - up_begin;
    let dd = down_end - down_begin;
    assert(du / (2 * du) == 0) by (nonlinear_arith)
        requires du >= 1;
    assert((198 * du + du) / (2 * du) == 99) by (nonlinear_arith)
        requires du >= 1;
    assert(dd / (2 * dd) == 0) by (nonlinear_arith)
        requires dd >= 1;
    assert((198 * dd + dd) / (2 * dd) == 99) by (nonlinear_arith)
        requires dd >= 1;
}

/// Law: under the fallback boundaries, every instant from midnight up to
/// and including the morning ramp's start (so in particular every whole
/// hour from 0 to 6) and every instant from the evening ramp's end on (in
/// particular the hours 22 and 23) reads 1, and every instant across the
/// plateau, ramp ends included (in particular the hours 10 to 18), reads
/// 100.
pub proof fn lemma_sun_curve_fallback_hours()
    ensures
        forall|t: int| 0 <= t <= FALLBACK_UP_BEGIN ==> #[trigger] sun_curve(
            t,
            FALLBACK_UP_BEGIN as int,
            FALLBACK_UP_END as int,
            FALLBACK_DOWN_BEGIN as int,
            FALLBACK_DOWN_END as int,
        ) == 1,
        forall|t: int| t >= FALLBACK_DOWN_END ==> #[trigger] sun_curve(
            t,
            FALLBACK_UP_BEGIN as int,
            FALLBACK_UP_END as int,
            FALLBACK_DOWN_BEGIN as int,
            FALLBACK_DOWN_END as int,
        ) == 1,
        forall|t: int| FALLBACK_UP_END <= t <= FALLBACK_DOWN_BEGIN ==> #[trigger] sun_curve(
            t,
            FALLBACK_UP_BEGIN as int,
            FALLBACK_UP_END as int,
            FALLBACK_DOWN_BEGIN as int,
            FALLBACK_DOWN_END as int,
        ) == 100,
{
    lemma_sun_curve_boundary_points(
        FALLBACK_UP_BEGIN as int,
        FALLBACK_UP_END as int,
        FALLBACK_DOWN_BEGIN as int,
        FALLBACK_DOWN_END as int,
    );
}

/// The target brightness at time `now` (seconds since midnight) under the
/// fixed fallback boundaries, used when no location is known.
pub fn get_brightness_based_on_time(now: u32) -> (r: u8)
    ensures
        r == sun_curve(
            now as int,
            FALLBACK_UP_BEGIN as int,
            FALLBACK_UP_END as int,
            FALLBACK_DOWN_BEGIN as int,
            FALLBACK_DOWN_END as int,
        ),
        1 <= r <= 100,
{
    compute_brightness_percentage(
        now,
        FALLBACK_UP_BEGIN,
        FALLBACK_UP_END,
        FALLBACK_DOWN_BEGIN,
        FALLBACK_DOWN_END,
    )
}

} // verus!
