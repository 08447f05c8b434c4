use crate::calendar::{valid_timestamp, weekday_from_monday, weekday_of, DAY_SECS};
use vstd::prelude::*;

verus! {

/// Length of the rolling session window, in seconds (five hours).
pub const SESSION_WINDOW_SECS: i64 = 18000;

/// Length of one week, in seconds.
pub const WEEK_SECS: i64 = 604800;

/// A Monday 00:00 UTC: 1970-01-05 00:00:00 is the first one after the epoch.
pub const FIRST_MONDAY: i64 = 345600;

/// Integer division rounding toward zero, as Rust's `/` on integers does.
pub open spec fn div_toward_zero(a: int, b: int) -> int
    recommends
        b > 0,
{
    if a >= 0 {
        a / b
    } else {
        -((-a) / b)
    }
}

/// The estimated session reset: `(t / 18000 + 1) * 18000` with Rust's division.
pub open spec fn session_reset_of(t: int) -> int {
    (div_toward_zero(t, 18000) + 1) * 18000
}

/// A week start: Monday 00:00 UTC.
pub open spec fn is_week_start(t: int) -> bool {
    t % 86400 == 0 && weekday_of(t) == 0
}

/// The first Monday 00:00 UTC strictly after `t`.
pub open spec fn weekly_reset_of(t: int) -> int {
    t - (t - 345600) % 604800 + 604800
}

/// Week starts are exactly the instants that lie a whole number of weeks from `FIRST_MONDAY`.
pub proof fn lemma_week_start_mod(t: int)
    ensures
        is_week_start(t) <==> (t - 345600) % 604800 == 0,
{
    let k = t / 86400;
    let m = t % 86400;
    assert(t == 86400 * k + m);
    let q = (t - 345600) / 604800;
    let r = (t - 345600) % 604800;
    assert(t - 345600 == 604800 * q + r);
    if is_week_start(t) {
        let w = (k + 3) / 7;
        assert(k + 3 == 7 * w);
        assert(t - 345600 == 604800 * (w - 1)) by (nonlinear_arith)
            requires
                t == 86400 * k + m,
                m == 0,
                k + 3 == 7 * w,
        ;
        vstd::arithmetic::div_mod::lemma_mod_multiples_basic(w - 1, 604800);
    }
    if r == 0 {
        assert(t == 86400 * (7 * q + 4)) by (nonlinear_arith)
            requires
                t - 345600 == 604800 * q + r,
                r == 0,
        ;
        vstd::arithmetic::div_mod::lemma_mod_multiples_basic(7 * q + 4, 86400);
        vstd::arithmetic::div_mod::lemma_div_multiples_vanish(7 * q + 4, 86400);
        vstd::arithmetic::div_mod::lemma_mod_multiples_basic(q + 1, 7);
    }
}

/// Estimated next session reset: the five-hour boundary of the Unix clock that
/// follows `now`'s bucket (`(now / 18000 + 1) * 18000`, Rust division).
pub fn next_session_reset(now: i64) -> (r: i64)
    requires
        valid_timestamp(now as int),
        valid_timestamp(session_reset_of(now as int)),
    ensures
        r == session_reset_of(now as int),
        r > now,
        r % SESSION_WINDOW_SECS == 0,
        now >= 0 ==> r - SESSION_WINDOW_SECS <= now,
{
    let q = match now.checked_div(SESSION_WINDOW_SECS) {
        Some(q) => q,
        None => 0,
    };
    assert(q == div_toward_zero(now as int, SESSION_WINDOW_SECS as int));
    proof {
        if now >= 0 {
            assert(now as int == 18000 * (now / 18000) + now % 18000);
        } else {
            assert(-now == 18000 * ((-now) / 18000) + (-now) % 18000);
        }
        vstd::arithmetic::div_mod::lemma_mod_multiples_basic(q + 1, 18000);
        assert(((q + 1) * 18000) % 18000 == 0) by (nonlinear_arith);
    }
    (q + 1) * SESSION_WINDOW_SECS
}

/// Estimated next weekly reset: the first Monday 00:00 UTC strictly after `now`.
pub fn next_weekly_reset(now: i64) -> (r: i64)
    requires
        valid_timestamp(now as int),
        valid_timestamp(weekly_reset_of(now as int)),
    ensures
        r == weekly_reset_of(now as int),
        r > now,
        is_week_start(r as int),
        forall|t: int| now < t < r ==> !is_week_start(t),
{
    let rem = match now.checked_rem_euclid(DAY_SECS) {
        Some(m) => m,
        None => 0,
    };
    let mut d: i64 = now - rem;
    let ghost target = weekly_reset_of(now as int);
    proof {
        lemma_week_start_mod(target);
        assert forall|t: int| now < t < target implies !is_week_start(t) by {
            lemma_week_start_mod(t);
        }
    }
    while weekday_from_monday(d) != 0 || d <= now
        invariant
            d % 86400 == 0,
            now - 86400 < d <= target,
            target == weekly_reset_of(now as int),
            is_week_start(target),
            valid_timestamp(now as int),
            valid_timestamp(target),
            forall|t: int| now < t < target ==> !is_week_start(t),
        decreases target - d,
    {
        assert(d < target);
        d = d + DAY_SECS;
    }
    d
}

} // verus!
