use crate::calendar::{
    epoch_nanos, nanos_between, rfc3339, rfc3339_text, time_string, time_text, valid_time,
    valid_timestamp, UtcTime, NANOS_PER_SEC,
};
use crate::ollama::{FetchError, RawUsage};
use crate::reset::{
    div_toward_zero, next_session_reset, next_weekly_reset, session_reset_of, weekly_reset_of,
};
use crate::text::{decimal_of, decimal_text};
use crate::types::{duplicate_text, FailureLevel, SnapshotView, UsageSnapshot};
use vstd::prelude::*;

verus! {

/// After this long without a success since the first failure, a key counts as dead.
pub const DEAD_AFTER_SECS: i64 = 86400;

/// This many consecutive readings with the same server time mean the endpoint stalled.
pub const STALL_TICKS: usize = 5;

/// A session share that falls by more than this (five percentage points, in
/// millionths of the window) is an observed window reset.
pub const DROP_THRESHOLD_PPM: u32 = 50000;

/// Which usage window reset.
#[derive(Debug, Clone, Copy, PartialEq, Eq, Structural)]
pub enum ResetKind {
    Session,
    Weekly,
}

/// A window reset observed in the readings (not estimated).
#[derive(Debug, Clone, Copy, PartialEq, Eq, Structural)]
pub struct ResetEvent {
    pub kind: ResetKind,
    pub observed_at: UtcTime,
}

/// The kind of the latest failure.
#[derive(Debug, Clone, Copy, PartialEq, Eq, Structural)]
pub enum LastErr {
    Auth,
    Other,
}

/// The live state of one key between readings.
pub struct KeyRuntime {
    pub alias: String,
    last_snapshot: Option<UsageSnapshot>,
    last_success_at: Option<UtcTime>,
    first_failure_at: Option<UtcTime>,
    last_err: Option<LastErr>,
    recent_server_times: Vec<String>,
    prev_session_ppm: Option<u32>,
}

/// The state of one key as contracts see it.
pub struct RuntimeView {
    pub alias: String,
    pub last_snapshot: Option<SnapshotView>,
    pub last_success_at: Option<UtcTime>,
    pub first_failure_at: Option<UtcTime>,
    pub last_err: Option<LastErr>,
    pub recent_server_times: Seq<String>,
    pub prev_session_ppm: Option<u32>,
}

impl View for KeyRuntime {
    type V = RuntimeView;

    closed spec fn view(&self) -> RuntimeView {
        RuntimeView {
            alias: self.alias,
            last_snapshot: match self.last_snapshot {
                Some(s) => Some(s@),
                None => None,
            },
            last_success_at: self.last_success_at,
            first_failure_at: self.first_failure_at,
            last_err: self.last_err,
            recent_server_times: self.recent_server_times@,
            prev_session_ppm: self.prev_session_ppm,
        }
    }
}

/// Every instant the state holds names a representable date-time, and the
/// tracked server times form one run.
pub open spec fn runtime_wf(r: RuntimeView) -> bool {
    &&& (r.last_success_at matches Some(t) ==> valid_time(t))
    &&& (r.first_failure_at matches Some(t) ==> valid_time(t))
    &&& is_run(r.recent_server_times)
}

/// The failure level at `now`: an authentication failure marks the key invalid;
/// any other failure is `Dead` once a day has passed since the first failure of
/// the current run of failures, `Degraded` before; no failure is `Healthy`.
pub open spec fn level_at(r: RuntimeView, now: UtcTime) -> FailureLevel {
    if r.last_err == Some(LastErr::Auth) && r.first_failure_at is Some {
        FailureLevel::InvalidKey
    } else if r.last_err is Some && (r.first_failure_at matches Some(t) && epoch_nanos(now)
        - epoch_nanos(t) >= DEAD_AFTER_SECS * NANOS_PER_SEC) {
        FailureLevel::Dead
    } else if r.last_err is Some {
        FailureLevel::Degraded
    } else {
        FailureLevel::Healthy
    }
}

/// The last `STALL_TICKS` or more readings all reported the same server time.
pub open spec fn stalled(r: RuntimeView) -> bool {
    &&& r.recent_server_times.len() >= STALL_TICKS
    &&& forall|i: int|
        0 <= i < r.recent_server_times.len() ==> (#[trigger] r.recent_server_times[i])@
            == r.recent_server_times[0]@
}

/// The level a snapshot shows: a stalled server clock degrades an otherwise healthy key.
pub open spec fn shown_level(r: RuntimeView, now: UtcTime) -> FailureLevel {
    if stalled(r) && level_at(r, now) == FailureLevel::Healthy {
        FailureLevel::Degraded
    } else {
        level_at(r, now)
    }
}

/// The run of identical server times after one more reading: it grows when the
/// reading repeats the last time, and restarts from the reading otherwise.
pub open spec fn next_server_times(old: Seq<String>, st: Option<String>) -> Seq<String> {
    match st {
        Some(t) => if old.len() > 0 && old.last()@ == t@ {
            old.push(t)
        } else {
            seq![t]
        },
        None => Seq::empty(),
    }
}

/// The session share fell by more than the threshold since the previous reading.
pub open spec fn session_dropped(prev: Option<u32>, cur: u32) -> bool {
    prev matches Some(p) && p - cur > DROP_THRESHOLD_PPM
}

/// The snapshot recorded by a successful reading `raw` at `now`.
pub open spec fn is_success_snapshot(s: SnapshotView, raw: RawUsage, now: UtcTime) -> bool {
    &&& s.session_ppm == Some(raw.session_ppm)
    &&& s.weekly_ppm == Some(raw.weekly_ppm)
    &&& s.session_reset_est matches Some(x) && x@ == rfc3339_text(
        session_reset_of(now.secs as int) as i64,
        0,
    )
    &&& s.weekly_reset_est matches Some(x) && x@ == rfc3339_text(
        weekly_reset_of(now.secs as int) as i64,
        0,
    )
    &&& s.session_models == raw.session_models@
    &&& s.weekly_models == raw.weekly_models@
    &&& s.server_time == raw.server_time
    &&& s.fetched_at@ == time_text(now)
    &&& s.last_success_at matches Some(x) && x@ == time_text(now)
    &&& s.failure_level == FailureLevel::Healthy
    &&& s.error_message is None
}

/// The state after a successful reading at `now`, as a relation between views.
pub open spec fn success_step(
    pre: RuntimeView,
    raw: RawUsage,
    now: UtcTime,
    post: RuntimeView,
) -> bool {
    &&& post.alias == pre.alias
    &&& post.prev_session_ppm == Some(raw.session_ppm)
    &&& post.recent_server_times == next_server_times(pre.recent_server_times, raw.server_time)
    &&& post.last_snapshot matches Some(s) && is_success_snapshot(s, raw, now)
    &&& post.last_success_at == Some(now)
    &&& post.first_failure_at is None
    &&& post.last_err is None
}

/// The state after a failed reading at `now`: the first failure of a run is kept,
/// the latest failure decides its kind, and the last good data stays.
pub open spec fn failure_step(pre: RuntimeView, err: FetchError, now: UtcTime) -> RuntimeView {
    RuntimeView {
        first_failure_at: match pre.first_failure_at {
            Some(t) => Some(t),
            None => Some(now),
        },
        last_err: Some(
            if err == FetchError::Auth {
                LastErr::Auth
            } else {
                LastErr::Other
            },
        ),
        ..pre
    }
}

/// Whole minutes from `t` to `now`: whole seconds first, then whole minutes, each
/// rounded toward zero.
pub open spec fn whole_minutes_between(t: UtcTime, now: UtcTime) -> int {
    div_toward_zero(div_toward_zero(epoch_nanos(now) - epoch_nanos(t), NANOS_PER_SEC as int), 60)
}

/// The message a snapshot carries for its level.
pub open spec fn message_for(level: FailureLevel, r: RuntimeView, now: UtcTime) -> Option<Seq<char>> {
    match level {
        FailureLevel::Healthy => None,
        FailureLevel::InvalidKey => Some("key 无效或已撤销"@),
        FailureLevel::Dead => Some(
            "接口可能已失效，上次成功："@ + match r.last_success_at {
                Some(t) => time_text(t),
                None => Seq::<char>::empty(),
            },
        ),
        FailureLevel::Degraded => Some(
            match r.last_success_at {
                Some(t) => "数据滞后 "@ + decimal_of(whole_minutes_between(t, now)) + " 分钟"@,
                None => "尚无成功数据"@,
            },
        ),
    }
}

/// The snapshot shown at `now` for the state `r`: the last good data (or an empty
/// record before any success), re-stamped with the level, its message, the
/// fetch time and the time of the last success.
pub open spec fn is_shown_snapshot(s: SnapshotView, r: RuntimeView, now: UtcTime) -> bool {
    &&& match r.last_snapshot {
        Some(b) => {
            &&& s.session_ppm == b.session_ppm
            &&& s.weekly_ppm == b.weekly_ppm
            &&& s.session_reset_est == b.session_reset_est
            &&& s.weekly_reset_est == b.weekly_reset_est
            &&& s.session_models == b.session_models
            &&& s.weekly_models == b.weekly_models
            &&& s.server_time == b.server_time
            &&& (r.last_success_at is None ==> s.last_success_at == b.last_success_at)
        },
        None => {
            &&& s.session_ppm is None
            &&& s.weekly_ppm is None
            &&& s.session_reset_est is None
            &&& s.weekly_reset_est is None
            &&& s.session_models.len() == 0
            &&& s.weekly_models.len() == 0
            &&& s.server_time is None
            &&& (r.last_success_at is None ==> s.last_success_at is None)
        },
    }
    &&& (r.last_success_at matches Some(t) ==> s.last_success_at matches Some(x) && x@
        == time_text(t))
    &&& s.fetched_at@ == time_text(now)
    &&& s.failure_level == shown_level(r, now)
    &&& match message_for(shown_level(r, now), r, now) {
        Some(m) => s.error_message matches Some(x) && x@ == m,
        None => s.error_message is None,
    }
}

/// Whole minutes from `t` to `now`, as `whole_minutes_between` counts them.
fn whole_minutes(t: UtcTime, now: UtcTime) -> (m: i64)
    requires
        valid_time(t),
        valid_time(now),
    ensures
        m == whole_minutes_between(t, now),
{
    let d = nanos_between(t, now);
    let secs = match d.checked_div(1000000000) {
        Some(x) => x,
        None => 0,
    };
    let minutes = match secs.checked_div(60) {
        Some(x) => x,
        None => 0,
    };
    minutes as i64
}

/// Builds one message text from a prefix and a suffix.
fn join_text(a: &str, b: &str) -> (s: String)
    ensures
        s@ == a@ + b@,
{
    let mut s = String::from_str(a);
    s.append(b);
    s
}

impl KeyRuntime {
    /// A key with no readings yet.
    pub fn new(alias: &str) -> (r: KeyRuntime)
        ensures
            r@.alias@ == alias@,
            r@.last_snapshot is None,
            r@.last_success_at is None,
            r@.first_failure_at is None,
            r@.last_err is None,
            r@.recent_server_times.len() == 0,
            r@.prev_session_ppm is None,
            runtime_wf(r@),
    {
        KeyRuntime {
            alias: String::from_str(alias),
            last_snapshot: None,
            last_success_at: None,
            first_failure_at: None,
            last_err: None,
            recent_server_times: Vec::new(),
            prev_session_ppm: None,
        }
    }

    /// The alias of the key.
    pub fn alias(&self) -> (a: &String)
        ensures
            *a == self@.alias,
    {
        &self.alias
    }

    /// Records a successful reading at `now`: stores the new snapshot with its
    /// estimated resets, clears the failure state, tracks the server time and
    /// returns the session reset observed when the share fell sharply.
    pub fn apply_success(&mut self, raw: RawUsage, now: UtcTime) -> (ev: Option<ResetEvent>)
        requires
            runtime_wf(old(self)@),
            valid_time(now),
            valid_timestamp(session_reset_of(now.secs as int)),
            valid_timestamp(weekly_reset_of(now.secs as int)),
        ensures
            runtime_wf(final(self)@),
            success_step(old(self)@, raw, now, final(self)@),
            final(self)@.last_snapshot is Some,
            final(self)@.last_snapshot->0.session_ppm == Some(raw.session_ppm),
            final(self)@.last_snapshot->0.weekly_ppm == Some(raw.weekly_ppm),
            final(self)@.last_snapshot->0.session_models == raw.session_models@,
            final(self)@.last_snapshot->0.weekly_models == raw.weekly_models@,
            final(self)@.last_snapshot->0.server_time == raw.server_time,
            ev is Some <==> (old(self)@.prev_session_ppm matches Some(p) && p > raw.session_ppm
                && p - raw.session_ppm > DROP_THRESHOLD_PPM),
            ev matches Some(e) ==> e.kind == ResetKind::Session && e.observed_at == now,
            final(self)@.prev_session_ppm == Some(raw.session_ppm),
            ev == (if session_dropped(old(self)@.prev_session_ppm, raw.session_ppm) {
                Some(ResetEvent { kind: ResetKind::Session, observed_at: now })
            } else {
                None
            }),
    {
        let session = raw.session_ppm;
        let reset_event = match self.prev_session_ppm {
            Some(prev) => if prev > session && prev - session > DROP_THRESHOLD_PPM {
                Some(ResetEvent { kind: ResetKind::Session, observed_at: now })
            } else {
                None
            },
            None => None,
        };
        self.prev_session_ppm = Some(session);

        let repeats = match &raw.server_time {
            Some(t) => {
                let n = self.recent_server_times.len();
                n > 0 && self.recent_server_times[n - 1] == *t
            },
            None => false,
        };
        if repeats {
            match &raw.server_time {
                Some(t) => {
                    self.recent_server_times.push(t.clone());
                },
                None => {},
            }
        } else {
            let mut fresh: Vec<String> = Vec::new();
            match &raw.server_time {
                Some(t) => {
                    fresh.push(t.clone());
                },
                None => {},
            }
            self.recent_server_times = fresh;
        }
        proof {
            law_server_times_stay_a_run(old(self)@.recent_server_times, raw.server_time);
            if !repeats {
                if raw.server_time is Some {
                    assert(self.recent_server_times@ =~= seq![raw.server_time->0]);
                } else {
                    assert(self.recent_server_times@ =~= Seq::<String>::empty());
                }
            }
        }

        let session_reset = next_session_reset(now.secs);
        let weekly_reset = next_weekly_reset(now.secs);
        self.last_snapshot = Some(
            UsageSnapshot {
                session_ppm: Some(raw.session_ppm),
                weekly_ppm: Some(raw.weekly_ppm),
                session_reset_est: Some(rfc3339(session_reset, 0)),
                weekly_reset_est: Some(rfc3339(weekly_reset, 0)),
                session_models: raw.session_models,
                weekly_models: raw.weekly_models,
                server_time: raw.server_time,
                fetched_at: time_string(now),
                last_success_at: Some(time_string(now)),
                failure_level: FailureLevel::Healthy,
                error_message: None,
            },
        );
        self.last_success_at = Some(now);
        self.first_failure_at = None;
        self.last_err = None;
        proof {
            law_success_stores_the_reading(old(self)@, raw, now, self@);
        }
        reset_event
    }

    /// Records a failed reading at `now`.
    pub fn apply_failure(&mut self, err: FetchError, now: UtcTime)
        requires
            runtime_wf(old(self)@),
            valid_time(now),
        ensures
            runtime_wf(final(self)@),
            final(self)@ == failure_step(old(self)@, err, now),
    {
        if self.first_failure_at.is_none() {
            self.first_failure_at = Some(now);
        }
        self.last_err = match err {
            FetchError::Auth => Some(LastErr::Auth),
            _ => Some(LastErr::Other),
        };
    }

    /// The last `STALL_TICKS` or more readings reported one and the same server time.
    pub fn server_time_stalled(&self) -> (b: bool)
        ensures
            b == stalled(self@),
    {
        let n = self.recent_server_times.len();
        if n < STALL_TICKS {
            return false;
        }
        let mut i: usize = 0;
        while i < n
            invariant
                0 < n == self.recent_server_times@.len(),
                i <= n,
                forall|j: int|
                    0 <= j < i ==> (#[trigger] self.recent_server_times@[j])@
                        == self.recent_server_times@[0]@,
            decreases n - i,
        {
            if self.recent_server_times[i] != self.recent_server_times[0] {
                return false;
            }
            i = i + 1;
        }
        true
    }

    /// The failure level at `now`.
    pub fn failure_level(&self, now: UtcTime) -> (l: FailureLevel)
        requires
            runtime_wf(self@),
            valid_time(now),
        ensures
            l == level_at(self@, now),
    {
        match self.last_err {
            Some(LastErr::Auth) if self.first_failure_at.is_some() => FailureLevel::InvalidKey,
            Some(_) => {
                let dead = match self.first_failure_at {
                    Some(t) => nanos_between(t, now) >= DEAD_AFTER_SECS as i128 * 1000000000,
                    None => false,
                };
                if dead {
                    FailureLevel::Dead
                } else {
                    FailureLevel::Degraded
                }
            },
            None => FailureLevel::Healthy,
        }
    }

    /// The snapshot for the dashboard at `now`: after a failure it keeps the last
    /// good data and says how stale it is, so a failing key never shows an empty card.
    pub fn build_snapshot(&mut self, now: UtcTime) -> (snap: UsageSnapshot)
        requires
            runtime_wf(old(self)@),
            valid_time(now),
        ensures
            runtime_wf(final(self)@),
            is_shown_snapshot(snap@, old(self)@, now),
            snap.failure_level == (if stalled(old(self)@) && level_at(old(self)@, now)
                == FailureLevel::Healthy {
                FailureLevel::Degraded
            } else {
                level_at(old(self)@, now)
            }),
            snap.failure_level == FailureLevel::Dead <==> (old(self)@.last_err == Some(LastErr::Other)
                && (old(self)@.first_failure_at matches Some(t) && epoch_nanos(now) - epoch_nanos(t)
                >= DEAD_AFTER_SECS * NANOS_PER_SEC)),
            old(self)@.last_snapshot matches Some(b) ==> snap@.session_models == b.session_models
                && snap@.weekly_models == b.weekly_models && snap@.session_ppm == b.session_ppm
                && snap@.weekly_ppm == b.weekly_ppm,
            final(self)@ == (RuntimeView { last_snapshot: Some(snap@), ..old(self)@ }),
    {
        let mut snap = match &self.last_snapshot {
            Some(s) => s.duplicate(),
            None => UsageSnapshot {
                session_ppm: None,
                weekly_ppm: None,
                session_reset_est: None,
                weekly_reset_est: None,
                session_models: Vec::new(),
                weekly_models: Vec::new(),
                server_time: None,
                fetched_at: time_string(now),
                last_success_at: None,
                failure_level: FailureLevel::Healthy,
                error_message: None,
            },
        };
        let mut level = self.failure_level(now);
        if self.server_time_stalled() && level == FailureLevel::Healthy {
            level = FailureLevel::Degraded;
        }
        snap.failure_level = level;
        snap.error_message = match level {
            FailureLevel::InvalidKey => Some(String::from_str("key 无效或已撤销")),
            FailureLevel::Dead => {
                let when = match self.last_success_at {
                    Some(t) => time_string(t),
                    None => String::new(),
                };
                Some(join_text("接口可能已失效，上次成功：", when.as_str()))
            },
            FailureLevel::Degraded => Some(
                match self.last_success_at {
                    Some(t) => {
                        let minutes = whole_minutes(t, now);
                        let mut m = join_text("数据滞后 ", decimal_text(minutes).as_str());
                        m.append(" 分钟");
                        m
                    },
                    None => String::from_str("尚无成功数据"),
                },
            ),
            FailureLevel::Healthy => None,
        };
        snap.fetched_at = time_string(now);
        match self.last_success_at {
            Some(t) => {
                snap.last_success_at = Some(time_string(t));
            },
            None => {},
        }
        self.last_snapshot = Some(snap.duplicate());
        proof {
            law_shown_level_is_failure_level(snap@, old(self)@, now);
            if old(self)@.last_snapshot is Some {
                law_shown_snapshot_keeps_data(snap@, old(self)@, now);
            }
        }
        snap
    }
}

/// The server times after readings `ts` (in order), starting from `s0`.
pub open spec fn times_after(s0: Seq<String>, ts: Seq<String>) -> Seq<String>
    decreases ts.len(),
{
    if ts.len() == 0 {
        s0
    } else {
        next_server_times(times_after(s0, ts.drop_last()), Some(ts.last()))
    }
}

/// All server times in a run agree with `t`.
pub open spec fn all_agree(s: Seq<String>, t: Seq<char>) -> bool {
    forall|i: int| 0 <= i < s.len() ==> (#[trigger] s[i])@ == t
}

/// After a successful reading the key is healthy, whenever it is asked.
pub proof fn law_success_is_healthy(
    pre: RuntimeView,
    raw: RawUsage,
    t: UtcTime,
    post: RuntimeView,
    now: UtcTime,
)
    requires
        success_step(pre, raw, t, post),
    ensures
        level_at(post, now) == FailureLevel::Healthy,
{
}

/// An authentication failure marks the key invalid at once and at every later time.
pub proof fn law_auth_failure_is_invalid_key(r: RuntimeView, t: UtcTime, now: UtcTime)
    ensures
        level_at(failure_step(r, FetchError::Auth, t), now) == FailureLevel::InvalidKey,
{
}

/// Further failures never move the start of a run of failures.
pub proof fn law_failure_run_start_is_kept(
    r: RuntimeView,
    e1: FetchError,
    t1: UtcTime,
    e2: FetchError,
    t2: UtcTime,
)
    ensures
        failure_step(failure_step(r, e1, t1), e2, t2).first_failure_at == failure_step(
            r,
            e1,
            t1,
        ).first_failure_at,
        r.first_failure_at is None ==> failure_step(r, e1, t1).first_failure_at == Some(t1),
{
}

/// The level a snapshot shows is the key's failure level at that moment, except
/// that a healthy key whose server clock stalled shows `Degraded`. So it shows
/// `Dead` exactly when the latest failure was not an authentication failure and a
/// full day has passed since the first failure of the current run of failures;
/// `InvalidKey` exactly after an authentication failure; and `Healthy` exactly when
/// no failure is on record and the server clock moves.
pub proof fn law_shown_level_is_failure_level(s: SnapshotView, r: RuntimeView, now: UtcTime)
    requires
        is_shown_snapshot(s, r, now),
    ensures
        s.failure_level == (if stalled(r) && level_at(r, now) == FailureLevel::Healthy {
            FailureLevel::Degraded
        } else {
            level_at(r, now)
        }),
        s.failure_level == FailureLevel::Dead <==> (r.last_err == Some(LastErr::Other) && (
        r.first_failure_at matches Some(t) && epoch_nanos(now) - epoch_nanos(t) >= DEAD_AFTER_SECS
            * NANOS_PER_SEC)),
        s.failure_level == FailureLevel::InvalidKey <==> (r.last_err == Some(LastErr::Auth)
            && r.first_failure_at is Some),
        s.failure_level == FailureLevel::Healthy <==> (r.last_err is None && !stalled(r)),
{
    if s.failure_level == FailureLevel::Dead {
        assert(r.last_err is Some && r.last_err != Some(LastErr::Auth));
        assert(r.last_err == Some(LastErr::Other));
    }
}

/// A snapshot shows the data of the last good reading unchanged: both shares,
/// both model lists, the server time and the estimated resets.
pub proof fn law_shown_snapshot_keeps_data(s: SnapshotView, r: RuntimeView, now: UtcTime)
    requires
        is_shown_snapshot(s, r, now),
        r.last_snapshot is Some,
    ensures
        s.session_ppm == r.last_snapshot->0.session_ppm,
        s.weekly_ppm == r.last_snapshot->0.weekly_ppm,
        s.session_models == r.last_snapshot->0.session_models,
        s.weekly_models == r.last_snapshot->0.weekly_models,
        s.server_time == r.last_snapshot->0.server_time,
        s.session_reset_est == r.last_snapshot->0.session_reset_est,
        s.weekly_reset_est == r.last_snapshot->0.weekly_reset_est,
{
}

/// A successful reading stores what it read: the session share and models in the
/// session fields, the weekly share and models in the weekly fields, and the
/// server time, with a healthy level and no message.
pub proof fn law_success_stores_the_reading(
    pre: RuntimeView,
    raw: RawUsage,
    now: UtcTime,
    post: RuntimeView,
)
    requires
        success_step(pre, raw, now, post),
    ensures
        post.last_snapshot is Some,
        post.last_snapshot->0.session_ppm == Some(raw.session_ppm),
        post.last_snapshot->0.weekly_ppm == Some(raw.weekly_ppm),
        post.last_snapshot->0.session_models == raw.session_models@,
        post.last_snapshot->0.weekly_models == raw.weekly_models@,
        post.last_snapshot->0.server_time == raw.server_time,
        post.last_snapshot->0.failure_level == FailureLevel::Healthy,
        post.last_snapshot->0.error_message is None,
        post.last_success_at == Some(now),
        post.first_failure_at is None,
        post.last_err is None,
{
}

/// A failure other than authentication, starting a run at `t`, shows `Degraded`
/// for a day and `Dead` from a full day after `t` on.
pub proof fn law_degraded_then_dead(r: RuntimeView, err: FetchError, t: UtcTime, now: UtcTime)
    requires
        r.first_failure_at is None,
        err != FetchError::Auth,
    ensures
        level_at(failure_step(r, err, t), now) == (if epoch_nanos(now) - epoch_nanos(t)
            >= DEAD_AFTER_SECS * NANOS_PER_SEC {
            FailureLevel::Dead
        } else {
            FailureLevel::Degraded
        }),
{
}

/// Once dead, a key stays dead as time passes without a reading.
pub proof fn law_dead_persists(r: RuntimeView, now: UtcTime, later: UtcTime)
    requires
        level_at(r, now) == FailureLevel::Dead,
        epoch_nanos(now) <= epoch_nanos(later),
    ensures
        level_at(r, later) == FailureLevel::Dead,
{
}

/// A failure keeps the last good data, the time of the last success and the
/// readings history.
pub proof fn law_failure_keeps_data(r: RuntimeView, err: FetchError, t: UtcTime)
    ensures
        failure_step(r, err, t).last_snapshot == r.last_snapshot,
        failure_step(r, err, t).last_success_at == r.last_success_at,
        failure_step(r, err, t).recent_server_times == r.recent_server_times,
        failure_step(r, err, t).prev_session_ppm == r.prev_session_ppm,
{
}

/// A run of server times agrees with its own last element.
pub open spec fn is_run(s: Seq<String>) -> bool {
    s.len() > 0 ==> all_agree(s, s.last()@)
}

/// One more reading keeps the run shape, and the run ends with the new server time.
pub proof fn law_server_times_stay_a_run(old: Seq<String>, st: Option<String>)
    requires
        is_run(old),
    ensures
        is_run(next_server_times(old, st)),
        st matches Some(t) ==> next_server_times(old, st).len() > 0 && next_server_times(
            old,
            st,
        ).last() == t,
        st is None ==> next_server_times(old, st).len() == 0,
{
    if let Some(t) = st {
        let n = next_server_times(old, st);
        if old.len() > 0 && old.last()@ == t@ {
            assert forall|i: int| 0 <= i < n.len() implies (#[trigger] n[i])@ == n.last()@ by {
                if i < old.len() {
                    assert(n[i] == old[i]);
                }
            }
        } else {
            assert(n =~= seq![t]);
        }
    }
}

/// Readings that report one server time `k` times in a row leave a run of at least
/// `k` copies of it, whatever run came before.
pub proof fn lemma_repeats_build_run(s0: Seq<String>, ts: Seq<String>)
    requires
        is_run(s0),
        ts.len() > 0,
        forall|i: int| 0 <= i < ts.len() ==> (#[trigger] ts[i])@ == ts[0]@,
    ensures
        times_after(s0, ts).len() >= ts.len(),
        all_agree(times_after(s0, ts), ts[0]@),
    decreases ts.len(),
{
    let prev = times_after(s0, ts.drop_last());
    let t = ts.last();
    if ts.len() == 1 {
        law_server_times_stay_a_run(s0, Some(t));
        assert(ts[0] == t);
        let n = next_server_times(s0, Some(t));
        assert forall|i: int| 0 <= i < n.len() implies (#[trigger] n[i])@ == ts[0]@ by {}
    } else {
        assert forall|i: int|
            0 <= i < ts.drop_last().len() implies (#[trigger] ts.drop_last()[i])@
            == ts.drop_last()[0]@ by {
            assert(ts.drop_last()[i] == ts[i]);
        }
        lemma_repeats_build_run(s0, ts.drop_last());
        assert(ts.drop_last()[0] == ts[0]);
        assert(prev.last()@ == t@);
        let n = next_server_times(prev, Some(t));
        assert(n == prev.push(t));
        assert forall|i: int| 0 <= i < n.len() implies (#[trigger] n[i])@ == ts[0]@ by {
            if i < prev.len() {
                assert(n[i] == prev[i]);
            }
        }
    }
}

/// Readings that report the same server time `STALL_TICKS` times in a row leave the
/// key stalled, whatever readings came before.
pub proof fn law_repeated_server_time_stalls(r: RuntimeView, s0: Seq<String>, ts: Seq<String>)
    requires
        is_run(s0),
        ts.len() >= STALL_TICKS,
        forall|i: int| 0 <= i < ts.len() ==> (#[trigger] ts[i])@ == ts[0]@,
        r.recent_server_times == times_after(s0, ts),
    ensures
        stalled(r),
{
    lemma_repeats_build_run(s0, ts);
}

/// A stalled key shows `Degraded` even though its readings succeed.
pub proof fn law_stall_degrades(r: RuntimeView, now: UtcTime)
    requires
        stalled(r),
        r.last_err is None,
    ensures
        shown_level(r, now) == FailureLevel::Degraded,
{
}

} // verus!
