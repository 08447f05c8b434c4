//! What a whole run of readings makes of one key: the laws that `apply_success`
//! and `apply_failure` keep across any sequence of calls.
use crate::calendar::{epoch_nanos, UtcTime, NANOS_PER_SEC};
use crate::ollama::{FetchError, RawUsage};
use crate::runtimes::fetch_recorded;
use crate::state::{
    failure_step, is_run, law_server_times_stay_a_run, level_at, session_dropped, stalled,
    success_step, LastErr, RuntimeView, DEAD_AFTER_SECS, DROP_THRESHOLD_PPM, STALL_TICKS,
};
use crate::store::StoreMsg;
use crate::types::FailureLevel;
use vstd::prelude::*;

verus! {

/// `post` is the state after the reading `r` (its result and the time it came
/// back) from `pre`, as `apply_success` and `apply_failure` leave it.
pub open spec fn reading_step(
    pre: RuntimeView,
    r: (Result<RawUsage, FetchError>, UtcTime),
    post: RuntimeView,
) -> bool {
    match r.0 {
        Ok(raw) => success_step(pre, raw, r.1, post),
        Err(e) => post == failure_step(pre, e, r.1),
    }
}

/// What `RuntimeTable::record_fetch` does to the key it names is one reading step,
/// so the states it leaves behind, call after call, form a history.
pub proof fn law_recorded_fetch_is_a_reading_step(
    pre: RuntimeView,
    post: RuntimeView,
    alias: Seq<char>,
    result: Result<RawUsage, FetchError>,
    now: UtcTime,
    ok: bool,
    msgs: Seq<StoreMsg>,
)
    requires
        fetch_recorded(pre, post, alias, result, now, ok, msgs),
    ensures
        reading_step(pre, (result, now), post),
{
}

/// `states` are the states of one key through the readings `rs`: `states[0]`
/// before the first reading and `states[i + 1]` right after `rs[i]`.
pub open spec fn is_history(
    rs: Seq<(Result<RawUsage, FetchError>, UtcTime)>,
    states: Seq<RuntimeView>,
) -> bool {
    &&& states.len() == rs.len() + 1
    &&& forall|i: int| 0 <= i < rs.len() ==> reading_step(states[i], #[trigger] rs[i], states[i + 1])
}

/// The session share of the latest successful reading in `rs`, if any succeeded.
pub open spec fn last_success_ppm(rs: Seq<(Result<RawUsage, FetchError>, UtcTime)>) -> Option<u32>
    decreases rs.len(),
{
    if rs.len() == 0 {
        None
    } else {
        match rs.last().0 {
            Ok(raw) => Some(raw.session_ppm),
            Err(_) => last_success_ppm(rs.drop_last()),
        }
    }
}

/// The server times that the successful readings in `rs` reported, in order.
pub open spec fn success_server_times(rs: Seq<(Result<RawUsage, FetchError>, UtcTime)>) -> Seq<
    Option<String>,
>
    decreases rs.len(),
{
    if rs.len() == 0 {
        Seq::empty()
    } else {
        match rs.last().0 {
            Ok(raw) => success_server_times(rs.drop_last()).push(raw.server_time),
            Err(_) => success_server_times(rs.drop_last()),
        }
    }
}

/// How many of the last entries of `ts` report the server time `t`.
pub open spec fn trailing_count(ts: Seq<Option<String>>, t: Seq<char>) -> nat
    decreases ts.len(),
{
    if ts.len() > 0 && (ts.last() matches Some(u) && u@ == t) {
        trailing_count(ts.drop_last(), t) + 1
    } else {
        0
    }
}

/// The length of the run of one and the same server time that `ts` ends with.
pub open spec fn trailing_run(ts: Seq<Option<String>>) -> nat {
    if ts.len() > 0 && ts.last() is Some {
        trailing_count(ts, ts.last()->0@)
    } else {
        0
    }
}

/// When the run of failures after the latest success in `rs` began, if the
/// latest reading failed.
pub open spec fn failing_since(rs: Seq<(Result<RawUsage, FetchError>, UtcTime)>) -> Option<UtcTime>
    decreases rs.len(),
{
    if rs.len() == 0 {
        None
    } else {
        match rs.last().0 {
            Ok(_) => None,
            Err(_) => match failing_since(rs.drop_last()) {
                Some(t) => Some(t),
                None => Some(rs.last().1),
            },
        }
    }
}

/// The error of the latest reading in `rs`, if it failed.
pub open spec fn latest_error(rs: Seq<(Result<RawUsage, FetchError>, UtcTime)>) -> Option<FetchError> {
    if rs.len() == 0 {
        None
    } else {
        match rs.last().0 {
            Ok(_) => None,
            Err(e) => Some(e),
        }
    }
}

/// The level that the readings `rs` call for at `now`: healthy unless the latest
/// reading failed; invalid after an authentication failure, however long ago the
/// failures began; otherwise dead once a day has passed since the first failure
/// after the latest success, degraded before.
pub open spec fn level_after(
    rs: Seq<(Result<RawUsage, FetchError>, UtcTime)>,
    now: UtcTime,
) -> FailureLevel {
    match latest_error(rs) {
        None => FailureLevel::Healthy,
        Some(FetchError::Auth) => FailureLevel::InvalidKey,
        Some(_) => match failing_since(rs) {
            Some(f) => if epoch_nanos(now) - epoch_nanos(f) >= DEAD_AFTER_SECS * NANOS_PER_SEC {
                FailureLevel::Dead
            } else {
                FailureLevel::Degraded
            },
            None => FailureLevel::Degraded,
        },
    }
}

proof fn lemma_prefix_step(rs: Seq<(Result<RawUsage, FetchError>, UtcTime)>, i: int)
    requires
        0 < i <= rs.len(),
    ensures
        rs.take(i).drop_last() == rs.take(i - 1),
        rs.take(i).last() == rs[i - 1],
        rs.take(i).len() > 0,
{
    assert(rs.take(i).drop_last() =~= rs.take(i - 1));
}

proof fn lemma_prev_share(
    rs: Seq<(Result<RawUsage, FetchError>, UtcTime)>,
    states: Seq<RuntimeView>,
    i: int,
)
    requires
        is_history(rs, states),
        states[0].prev_session_ppm is None,
        0 <= i <= rs.len(),
    ensures
        states[i].prev_session_ppm == last_success_ppm(rs.take(i)),
    decreases i,
{
    if i > 0 {
        lemma_prev_share(rs, states, i - 1);
        lemma_prefix_step(rs, i);
        assert(reading_step(states[i - 1], rs[i - 1], states[i]));
    }
}

/// From a key that has seen no reading, through any readings `rs`: a successful
/// reading `rs[i]` reports a session reset exactly when an earlier reading
/// succeeded and its session share exceeds the new one by more than the
/// threshold. Failures in between do not count, and the first success never
/// reports one.
pub proof fn law_reset_against_last_success(
    rs: Seq<(Result<RawUsage, FetchError>, UtcTime)>,
    states: Seq<RuntimeView>,
    i: int,
)
    requires
        is_history(rs, states),
        states[0].prev_session_ppm is None,
        0 <= i < rs.len(),
    ensures
        states[i].prev_session_ppm == last_success_ppm(rs.take(i)),
        rs[i].0 matches Ok(raw) ==> (session_dropped(states[i].prev_session_ppm, raw.session_ppm)
            <==> (last_success_ppm(rs.take(i)) matches Some(q) && q - raw.session_ppm
            > DROP_THRESHOLD_PPM)),
{
    lemma_prev_share(rs, states, i);
}

proof fn lemma_server_run(
    rs: Seq<(Result<RawUsage, FetchError>, UtcTime)>,
    states: Seq<RuntimeView>,
    i: int,
)
    requires
        is_history(rs, states),
        states[0].recent_server_times.len() == 0,
        0 <= i <= rs.len(),
    ensures
        is_run(states[i].recent_server_times),
        states[i].recent_server_times.len() == trailing_run(success_server_times(rs.take(i))),
        states[i].recent_server_times.len() > 0 ==> success_server_times(rs.take(i)).len() > 0
            && success_server_times(rs.take(i)).last() == Some(
            states[i].recent_server_times.last(),
        ),
    decreases i,
{
    if i > 0 {
        lemma_server_run(rs, states, i - 1);
        lemma_prefix_step(rs, i);
        assert(reading_step(states[i - 1], rs[i - 1], states[i]));
        let s = states[i - 1].recent_server_times;
        let ts = success_server_times(rs.take(i - 1));
        if let Ok(raw) = rs[i - 1].0 {
            law_server_times_stay_a_run(s, raw.server_time);
            let ts2 = ts.push(raw.server_time);
            assert(success_server_times(rs.take(i)) == ts2);
            assert(ts2.drop_last() =~= ts);
            if let Some(t) = raw.server_time {
                assert(trailing_count(ts2, t@) == trailing_count(ts, t@) + 1);
                if s.len() > 0 && s.last()@ == t@ {
                    assert(trailing_run(ts) == trailing_count(ts, t@));
                } else if s.len() == 0 {
                    if ts.len() > 0 && ts.last() is Some {
                        assert(trailing_count(ts, ts.last()->0@) >= 1);
                    }
                    assert(trailing_count(ts, t@) == 0);
                } else {
                    assert(trailing_count(ts, t@) == 0);
                }
            } else {
                assert(trailing_run(ts2) == 0);
            }
        } else {
            assert(success_server_times(rs.take(i)) == ts);
        }
    } else {
        assert(rs.take(0) =~= Seq::<(Result<RawUsage, FetchError>, UtcTime)>::empty());
    }
}

/// From a key that tracks no server time yet, through any readings `rs`: the key
/// is stalled exactly when its latest `STALL_TICKS` or more successful readings
/// all reported one and the same server time. Failures in between neither break
/// nor extend the run; a success without a server time ends it.
pub proof fn law_stalled_iff_repeated_server_time(
    rs: Seq<(Result<RawUsage, FetchError>, UtcTime)>,
    states: Seq<RuntimeView>,
)
    requires
        is_history(rs, states),
        states[0].recent_server_times.len() == 0,
    ensures
        stalled(states[rs.len() as int]) <==> trailing_run(success_server_times(rs))
            >= STALL_TICKS,
{
    let n = rs.len() as int;
    lemma_server_run(rs, states, n);
    assert(rs.take(n) =~= rs);
    let s = states[n].recent_server_times;
    if s.len() >= STALL_TICKS {
        assert(s[0]@ == s.last()@);
    }
}

proof fn lemma_failure_run(
    rs: Seq<(Result<RawUsage, FetchError>, UtcTime)>,
    states: Seq<RuntimeView>,
    i: int,
)
    requires
        is_history(rs, states),
        states[0].first_failure_at is None,
        states[0].last_err is None,
        0 <= i <= rs.len(),
    ensures
        states[i].first_failure_at == failing_since(rs.take(i)),
        states[i].last_err == match latest_error(rs.take(i)) {
            None => None,
            Some(FetchError::Auth) => Some(LastErr::Auth),
            Some(_) => Some(LastErr::Other),
        },
    decreases i,
{
    if i > 0 {
        lemma_failure_run(rs, states, i - 1);
        lemma_prefix_step(rs, i);
        assert(reading_step(states[i - 1], rs[i - 1], states[i]));
    } else {
        assert(rs.take(0) =~= Seq::<(Result<RawUsage, FetchError>, UtcTime)>::empty());
    }
}

/// From a key with no failure on record, through any readings `rs`, the level at
/// `now` is fixed by the readings alone: healthy unless the latest reading failed;
/// invalid when it failed authentication; otherwise dead from a full day after the
/// first failure since the latest success on, and degraded before.
pub proof fn law_level_follows_readings(
    rs: Seq<(Result<RawUsage, FetchError>, UtcTime)>,
    states: Seq<RuntimeView>,
    now: UtcTime,
)
    requires
        is_history(rs, states),
        states[0].first_failure_at is None,
        states[0].last_err is None,
    ensures
        level_at(states[rs.len() as int], now) == level_after(rs, now),
{
    let n = rs.len() as int;
    lemma_failure_run(rs, states, n);
    assert(rs.take(n) =~= rs);
}

} // verus!
