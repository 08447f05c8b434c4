use crate::types::RefreshResult;
use vstd::prelude::*;

verus! {

/// The usage endpoint that every key is read from.
pub const DEFAULT_URL: &'static str = "https://ollama.com/api/usage";

/// The least gap between two readings of one key, timed or manual (two seconds).
pub const MIN_GAP_MS: u64 = 2000;

/// Timing of one key's polling, in milliseconds.
#[derive(Debug, Clone, Copy, PartialEq, Eq, Structural)]
pub struct PollConfig {
    pub interval_ms: u64,
    pub min_gap_ms: u64,
}

impl PollConfig {
    /// Polls every `secs` seconds (saturating) with the standard two-second gap.
    pub fn every_secs(secs: u64) -> (c: PollConfig)
        ensures
            c.interval_ms == (if secs * 1000 <= u64::MAX {
                (secs * 1000) as u64
            } else {
                u64::MAX
            }),
            c.min_gap_ms == MIN_GAP_MS,
    {
        let interval_ms = if secs <= u64::MAX / 1000 {
            secs * 1000
        } else {
            u64::MAX
        };
        PollConfig { interval_ms, min_gap_ms: MIN_GAP_MS }
    }
}

/// What wakes a key's polling task.
#[derive(Debug, Clone, Copy, PartialEq, Eq, Structural)]
pub enum PollEvent {
    /// The interval elapsed.
    Tick,
    /// The user asked for a refresh.
    Refresh,
    /// The key was removed.
    Stop,
}

/// What the polling task does next.
#[derive(Debug, Clone, Copy, PartialEq, Eq, Structural)]
pub enum PollAction {
    /// Read the endpoint now.
    Fetch,
    /// Let a timed reading pass: the last reading is too recent.
    Skip,
    /// Refuse a manual refresh: the last reading is too recent.
    RateLimited,
    /// End the task.
    Stop,
}

/// Milliseconds since the last reading, zero when the clock reads earlier.
pub open spec fn elapsed_since(last: u64, now: u64) -> int {
    if now >= last {
        now - last
    } else {
        0
    }
}

/// A reading may start at `now`.
pub open spec fn limiter_open(last: Option<u64>, now: u64, gap: u64) -> bool {
    match last {
        None => true,
        Some(l) => elapsed_since(l, now) >= gap,
    }
}

/// The decision for `event` at `now` and the time of the last reading after it.
pub open spec fn limiter_step(last: Option<u64>, event: PollEvent, now: u64, gap: u64) -> (
    PollAction,
    Option<u64>,
) {
    match event {
        PollEvent::Stop => (PollAction::Stop, last),
        PollEvent::Tick => if limiter_open(last, now, gap) {
            (PollAction::Fetch, Some(now))
        } else {
            (PollAction::Skip, last)
        },
        PollEvent::Refresh => if limiter_open(last, now, gap) {
            (PollAction::Fetch, Some(now))
        } else {
            (PollAction::RateLimited, last)
        },
    }
}

/// The rate limit shared by timed and manual readings of one key.
#[derive(Debug, Clone, Copy)]
pub struct RateLimiter {
    /// When the last reading started; `None` before the first one.
    pub last_request_ms: Option<u64>,
}

impl RateLimiter {
    /// A limiter that lets the first reading through at once.
    pub fn new() -> (g: RateLimiter)
        ensures
            g.last_request_ms is None,
    {
        RateLimiter { last_request_ms: None }
    }

    /// Decides what to do with `event` at `now` (a monotonic clock in milliseconds).
    pub fn on_event(&mut self, cfg: &PollConfig, event: PollEvent, now: u64) -> (a: PollAction)
        ensures
            (a, final(self).last_request_ms) == limiter_step(
                old(self).last_request_ms,
                event,
                now,
                cfg.min_gap_ms,
            ),
            event != PollEvent::Stop ==> ((a == PollAction::Fetch) <==> (old(self).last_request_ms is None
                || (old(self).last_request_ms->0 <= now && now - old(self).last_request_ms->0
                >= cfg.min_gap_ms) || (now < old(self).last_request_ms->0 && cfg.min_gap_ms == 0))),
            event == PollEvent::Stop ==> a == PollAction::Stop && final(self).last_request_ms == old(
                self,
            ).last_request_ms,
    {
        let open = match self.last_request_ms {
            None => true,
            Some(l) => {
                let elapsed = if now >= l {
                    now - l
                } else {
                    0
                };
                elapsed >= cfg.min_gap_ms
            },
        };
        proof {
            if event != PollEvent::Stop {
                law_limiter_lets_readings_through(self.last_request_ms, event, now, cfg.min_gap_ms);
            }
        }
        match event {
            PollEvent::Stop => PollAction::Stop,
            PollEvent::Tick => if open {
                self.last_request_ms = Some(now);
                PollAction::Fetch
            } else {
                PollAction::Skip
            },
            PollEvent::Refresh => if open {
                self.last_request_ms = Some(now);
                PollAction::Fetch
            } else {
                PollAction::RateLimited
            },
        }
    }
}

/// The answer to a manual refresh that was let through.
pub fn refresh_result(fetched_ok: bool) -> (r: RefreshResult)
    ensures
        r == (if fetched_ok {
            RefreshResult::Updated
        } else {
            RefreshResult::Failed
        }),
{
    if fetched_ok {
        RefreshResult::Updated
    } else {
        RefreshResult::Failed
    }
}

/// A tick or a manual refresh is let through exactly when there was no reading
/// yet, or at least the gap has passed on the clock since the last one; a reading
/// restarts the clock at `now`, and a refusal leaves it where it was. A tick that
/// is not let through is skipped and a refresh is rate-limited.
pub proof fn law_limiter_lets_readings_through(
    last: Option<u64>,
    e: PollEvent,
    now: u64,
    gap: u64,
)
    requires
        e != PollEvent::Stop,
    ensures
        (limiter_step(last, e, now, gap).0 == PollAction::Fetch) <==> (last is None || (
        last->0 <= now && now - last->0 >= gap) || (now < last->0 && gap == 0)),
        limiter_step(last, e, now, gap).0 == PollAction::Fetch ==> limiter_step(
            last,
            e,
            now,
            gap,
        ).1 == Some(now),
        limiter_step(last, e, now, gap).0 != PollAction::Fetch ==> limiter_step(
            last,
            e,
            now,
            gap,
        ).1 == last && limiter_step(last, e, now, gap).0 == (if e == PollEvent::Tick {
            PollAction::Skip
        } else {
            PollAction::RateLimited
        }),
{
}

/// Two readings of one key, whatever asked for them, start at least the gap apart:
/// only a reading moves the limiter's clock, and a reading needs the gap since the last one.
pub proof fn law_readings_are_spaced(
    last: Option<u64>,
    e1: PollEvent,
    t1: u64,
    e2: PollEvent,
    t2: u64,
    gap: u64,
)
    requires
        limiter_step(last, e1, t1, gap).0 == PollAction::Fetch,
        limiter_step(limiter_step(last, e1, t1, gap).1, e2, t2, gap).0 == PollAction::Fetch,
        t1 <= t2,
    ensures
        t2 - t1 >= gap,
{
}

/// Decisions other than a reading leave the limiter's clock where it was.
pub proof fn law_refusals_keep_clock(last: Option<u64>, e: PollEvent, t: u64, gap: u64)
    requires
        limiter_step(last, e, t, gap).0 != PollAction::Fetch,
    ensures
        limiter_step(last, e, t, gap).1 == last,
{
}

/// A manual refresh right after a reading, within the gap, is refused.
pub proof fn law_quick_refresh_is_limited(last: Option<u64>, e: PollEvent, t1: u64, t2: u64, gap: u64)
    requires
        limiter_step(last, e, t1, gap).0 == PollAction::Fetch,
        t1 <= t2,
        t2 - t1 < gap,
    ensures
        limiter_step(limiter_step(last, e, t1, gap).1, PollEvent::Refresh, t2, gap).0
            == PollAction::RateLimited,
{
}

/// The time of the last reading after the events `evs` (each with the clock
/// reading it came at), starting from `last`.
pub open spec fn limiter_after(last: Option<u64>, evs: Seq<(PollEvent, u64)>, gap: u64) -> Option<
    u64,
>
    decreases evs.len(),
{
    if evs.len() == 0 {
        last
    } else {
        limiter_step(limiter_after(last, evs.drop_last(), gap), evs.last().0, evs.last().1, gap).1
    }
}

/// The decision for the event `evs[i]`, taken after the events before it.
pub open spec fn decision_at(last: Option<u64>, evs: Seq<(PollEvent, u64)>, i: int, gap: u64) -> PollAction {
    limiter_step(limiter_after(last, evs.take(i), gap), evs[i].0, evs[i].1, gap).0
}

proof fn lemma_clock_after_reading(
    last: Option<u64>,
    evs: Seq<(PollEvent, u64)>,
    gap: u64,
    i: int,
    k: int,
)
    requires
        forall|a: int, b: int| 0 <= a <= b < evs.len() ==> evs[a].1 <= evs[b].1,
        0 <= i < k <= evs.len(),
        decision_at(last, evs, i, gap) == PollAction::Fetch,
    ensures
        limiter_after(last, evs.take(k), gap) matches Some(l) && evs[i].1 <= l <= evs[k - 1].1,
    decreases k,
{
    assert(evs.take(k).drop_last() =~= evs.take(k - 1));
    assert(evs.take(k).last() == evs[k - 1]);
    if k > i + 1 {
        lemma_clock_after_reading(last, evs, gap, i, k - 1);
        assert(evs[k - 2].1 <= evs[k - 1].1);
    }
}

/// Over any run of events whose clock never goes back, any two readings start at
/// least the gap apart, whatever skips, refusals or other readings came between
/// them and whether a tick or a manual refresh asked for them.
pub proof fn law_every_two_readings_are_spaced(
    last: Option<u64>,
    evs: Seq<(PollEvent, u64)>,
    gap: u64,
    i: int,
    j: int,
)
    requires
        forall|a: int, b: int| 0 <= a <= b < evs.len() ==> evs[a].1 <= evs[b].1,
        0 <= i < j < evs.len(),
        decision_at(last, evs, i, gap) == PollAction::Fetch,
        decision_at(last, evs, j, gap) == PollAction::Fetch,
    ensures
        evs[j].1 - evs[i].1 >= gap,
{
    lemma_clock_after_reading(last, evs, gap, i, j);
    assert(evs[j - 1].1 <= evs[j].1);
}

} // verus!
