use chrono::{TimeZone, Utc};
use ollamabar_lib::ollama::{FetchError, RawUsage};
use ollamabar_lib::poller::{PollAction, PollConfig, PollEvent, RateLimiter};
use ollamabar_lib::state::{KeyRuntime, ResetEvent, ResetKind};
use ollamabar_lib::types::{FailureLevel, ModelStat};
use ollamabar_lib::calendar::UtcTime;

fn at(secs: i64) -> UtcTime {
    UtcTime { secs, nanos: 0 }
}

fn raw(session_ppm: u32, server: Option<&str>) -> RawUsage {
    RawUsage {
        session_ppm,
        weekly_ppm: 200_000,
        session_models: vec![ModelStat { name: "m".into(), request_count: 1 }],
        weekly_models: vec![],
        server_time: server.map(|s| s.to_string()),
    }
}

fn t0() -> i64 {
    Utc.with_ymd_and_hms(2026, 9, 14, 0, 0, 0).unwrap().timestamp()
}

#[test]
fn reset_compares_with_last_success_across_failures() {
    let mut rt = KeyRuntime::new("k");
    let t = t0();
    // The first success never reports a reset.
    assert_eq!(rt.apply_success(raw(500_000, None), at(t)), None);
    rt.apply_failure(FetchError::Network, at(t + 60));
    rt.apply_failure(FetchError::Http, at(t + 120));
    // Compared with the last success (50%), not with anything the failures saw.
    assert_eq!(
        rt.apply_success(raw(100_000, None), at(t + 180)),
        Some(ResetEvent { kind: ResetKind::Session, observed_at: at(t + 180) })
    );
    // 10% -> 6% is a fall of four points: no reset.
    assert_eq!(rt.apply_success(raw(60_000, None), at(t + 240)), None);
}

#[test]
fn first_success_after_failures_reports_no_reset() {
    let mut rt = KeyRuntime::new("k");
    let t = t0();
    rt.apply_failure(FetchError::Network, at(t));
    assert_eq!(rt.apply_success(raw(0, None), at(t + 60)), None);
}

#[test]
fn stall_counts_successes_and_skips_failures() {
    let mut rt = KeyRuntime::new("k");
    let t = t0();
    for i in 0..4 {
        rt.apply_success(raw(1, Some("S")), at(t + 60 * i));
    }
    assert!(!rt.server_time_stalled());
    rt.apply_failure(FetchError::Network, at(t + 300));
    assert!(!rt.server_time_stalled());
    rt.apply_success(raw(1, Some("S")), at(t + 360));
    assert!(rt.server_time_stalled());
    assert_eq!(rt.build_snapshot(at(t + 360)).failure_level, FailureLevel::Degraded);
    // A success without a server time ends the run.
    rt.apply_success(raw(1, None), at(t + 420));
    assert!(!rt.server_time_stalled());
}

#[test]
fn level_follows_first_failure_since_last_success() {
    let mut rt = KeyRuntime::new("k");
    let t = t0();
    rt.apply_failure(FetchError::Network, at(t));
    rt.apply_failure(FetchError::Network, at(t + 3600));
    assert_eq!(rt.failure_level(at(t + 86_399)), FailureLevel::Degraded);
    assert_eq!(rt.failure_level(at(t + 86_400)), FailureLevel::Dead);
    // A success starts over: the next run of failures counts from its own start.
    rt.apply_success(raw(1, None), at(t + 90_000));
    assert_eq!(rt.failure_level(at(t + 90_000)), FailureLevel::Healthy);
    rt.apply_failure(FetchError::Network, at(t + 100_000));
    assert_eq!(rt.failure_level(at(t + 186_399)), FailureLevel::Degraded);
    assert_eq!(rt.failure_level(at(t + 186_400)), FailureLevel::Dead);
    // The latest error decides: authentication makes the key invalid however long ago.
    rt.apply_failure(FetchError::Auth, at(t + 200_000));
    assert_eq!(rt.failure_level(at(t + 1_000_000)), FailureLevel::InvalidKey);
}

#[test]
fn readings_over_a_run_of_events_stay_spaced() {
    let cfg = PollConfig::every_secs(60);
    let mut lim = RateLimiter::new();
    let events = [
        (PollEvent::Tick, 0u64, PollAction::Fetch),
        (PollEvent::Refresh, 500, PollAction::RateLimited),
        (PollEvent::Tick, 1_999, PollAction::Skip),
        (PollEvent::Refresh, 2_000, PollAction::Fetch),
        (PollEvent::Refresh, 3_999, PollAction::RateLimited),
        (PollEvent::Tick, 4_000, PollAction::Fetch),
        (PollEvent::Stop, 4_001, PollAction::Stop),
    ];
    let mut fetches = vec![];
    for (ev, now, expected) in events {
        let a = lim.on_event(&cfg, ev, now);
        assert_eq!(a, expected);
        if a == PollAction::Fetch {
            fetches.push(now);
        }
    }
    assert_eq!(fetches, vec![0, 2_000, 4_000]);
    for w in fetches.windows(2) {
        assert!(w[1] - w[0] >= cfg.min_gap_ms);
    }
}

#[test]
fn times_keep_their_fraction_of_a_second() {
    let t = t0();
    let mut rt = KeyRuntime::new("k");
    let first = UtcTime { secs: t, nanos: 900_000_000 };
    rt.apply_success(raw(1, None), first);
    let snap = rt.build_snapshot(UtcTime { secs: t + 1, nanos: 500_000_000 });
    assert_eq!(snap.fetched_at, "2026-09-14T00:00:01.500+00:00");
    assert_eq!(snap.last_success_at.as_deref(), Some("2026-09-14T00:00:00.900+00:00"));
    // 59.2 seconds behind is no whole minute yet.
    rt.apply_failure(FetchError::Network, UtcTime { secs: t + 30, nanos: 0 });
    let snap = rt.build_snapshot(UtcTime { secs: t + 60, nanos: 100_000_000 });
    assert_eq!(snap.error_message.as_deref(), Some("数据滞后 0 分钟"));
    let snap = rt.build_snapshot(UtcTime { secs: t + 60, nanos: 900_000_000 });
    assert_eq!(snap.error_message.as_deref(), Some("数据滞后 1 分钟"));
}

#[test]
fn dead_needs_a_full_day_to_the_nanosecond() {
    let t = t0();
    let mut rt = KeyRuntime::new("k");
    rt.apply_failure(FetchError::Network, UtcTime { secs: t, nanos: 700_000_000 });
    let almost = UtcTime { secs: t + 86_400, nanos: 699_999_999 };
    assert_eq!(rt.failure_level(almost), FailureLevel::Degraded);
    let day = UtcTime { secs: t + 86_400, nanos: 700_000_000 };
    assert_eq!(rt.failure_level(day), FailureLevel::Dead);
}
