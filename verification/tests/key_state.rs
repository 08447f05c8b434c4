use chrono::{TimeZone, Utc};
use ollamabar_lib::ollama::{FetchError, RawUsage};
use ollamabar_lib::state::{KeyRuntime, ResetEvent, ResetKind};
use ollamabar_lib::types::{FailureLevel, ModelStat};
use ollamabar_lib::calendar::UtcTime;

fn at(secs: i64) -> UtcTime {
    UtcTime { secs, nanos: 0 }
}

fn raw(session_ppm: u32, server: &str) -> RawUsage {
    RawUsage {
        session_ppm,
        weekly_ppm: 100_000,
        session_models: vec![ModelStat { name: "m".into(), request_count: 3 }],
        weekly_models: vec![],
        server_time: Some(server.into()),
    }
}

fn t(y: i32, mo: u32, d: u32, h: u32) -> i64 {
    Utc.with_ymd_and_hms(y, mo, d, h, 0, 0).unwrap().timestamp()
}

#[test]
fn success_then_failure_then_dead_three_levels() {
    let mut rt = KeyRuntime::new("k1");
    let t0 = t(2026, 9, 14, 0);
    rt.apply_success(raw(100_000, "2026-09-14T00:00:10Z"), at(t0));
    assert_eq!(rt.failure_level(at(t0)), FailureLevel::Healthy);

    let t1 = t0 + 2 * 3600;
    rt.apply_failure(FetchError::Network, at(t1));
    assert_eq!(rt.failure_level(at(t1)), FailureLevel::Degraded);

    // The first failure was at t1; dead needs a full day since then.
    let t2 = t0 + 27 * 3600;
    assert_eq!(rt.failure_level(at(t2)), FailureLevel::Dead);
}

#[test]
fn auth_error_is_invalid_key() {
    let mut rt = KeyRuntime::new("k1");
    let t0 = t(2026, 9, 14, 0);
    rt.apply_failure(FetchError::Auth, at(t0));
    assert_eq!(rt.failure_level(at(t0)), FailureLevel::InvalidKey);
}

#[test]
fn server_time_unchanged_five_times_is_drift() {
    let mut rt = KeyRuntime::new("k1");
    let t0 = t(2026, 9, 14, 0);
    for i in 0..5 {
        rt.apply_success(raw(100_000, "2026-09-14T00:00:10Z"), at(t0 + i * 60));
    }
    assert!(rt.server_time_stalled());
    let snap = rt.build_snapshot(at(t0));
    assert_eq!(snap.failure_level, FailureLevel::Degraded);
}

#[test]
fn session_drop_over_five_points_is_reset_event() {
    let mut rt = KeyRuntime::new("k1");
    let t0 = t(2026, 9, 14, 4);
    rt.apply_success(raw(400_000, "2026-09-14T04:00:00Z"), at(t0));
    let ev = rt.apply_success(raw(20_000, "2026-09-14T05:00:00Z"), at(t0 + 3600));
    assert!(matches!(ev, Some(ResetEvent { kind: ResetKind::Session, .. })));
    // A small move (0.02 -> 0.05) is no reset.
    let ev2 = rt.apply_success(raw(50_000, "2026-09-14T05:00:10Z"), at(t0 + 3600));
    assert!(ev2.is_none());
}

#[test]
fn reset_event_carries_observation_time() {
    let mut rt = KeyRuntime::new("k1");
    let t0 = t(2026, 9, 14, 4);
    rt.apply_success(raw(400_000, "a"), at(t0));
    let ev = rt.apply_success(raw(20_000, "b"), at(t0 + 60)).unwrap();
    assert_eq!(ev.observed_at, at(t0 + 60));
    assert_eq!(ev.kind, ResetKind::Session);
}

#[test]
fn drop_of_exactly_five_points_is_no_reset() {
    let mut rt = KeyRuntime::new("k1");
    let t0 = t(2026, 9, 14, 4);
    rt.apply_success(raw(100_000, "a"), at(t0));
    assert!(rt.apply_success(raw(50_000, "b"), at(t0 + 60)).is_none());
    assert!(rt.apply_success(raw(0, "c"), at(t0 + 120)).is_none());
    assert!(rt.apply_success(raw(60_000, "d"), at(t0 + 180)).is_none());
    assert!(rt.apply_success(raw(9_999, "e"), at(t0 + 240)).is_some());
}

#[test]
fn success_snapshot_fields() {
    let mut rt = KeyRuntime::new("k1");
    let t0 = t(2026, 9, 14, 4);
    rt.apply_success(raw(92_000, "2026-09-15T06:29:56Z"), at(t0));
    let snap = rt.build_snapshot(at(t0));
    assert_eq!(snap.session_ppm, Some(92_000));
    assert_eq!(snap.weekly_ppm, Some(100_000));
    assert_eq!(snap.session_reset_est.as_deref(), Some("2026-09-14T05:00:00+00:00"));
    assert_eq!(snap.weekly_reset_est.as_deref(), Some("2026-09-21T00:00:00+00:00"));
    assert_eq!(snap.fetched_at, "2026-09-14T04:00:00+00:00");
    assert_eq!(snap.last_success_at.as_deref(), Some("2026-09-14T04:00:00+00:00"));
    assert_eq!(snap.server_time.as_deref(), Some("2026-09-15T06:29:56Z"));
    assert_eq!(snap.session_models.len(), 1);
    assert_eq!(snap.failure_level, FailureLevel::Healthy);
    assert_eq!(snap.error_message, None);
}

#[test]
fn failure_keeps_last_data_and_says_how_stale() {
    let mut rt = KeyRuntime::new("k1");
    let t0 = t(2026, 9, 14, 4);
    rt.apply_success(raw(92_000, "x"), at(t0));
    rt.apply_failure(FetchError::Network, at(t0 + 60));
    let snap = rt.build_snapshot(at(t0 + 2 * 3600 + 59));
    assert_eq!(snap.session_ppm, Some(92_000));
    assert_eq!(snap.failure_level, FailureLevel::Degraded);
    assert_eq!(snap.error_message.as_deref(), Some("数据滞后 120 分钟"));
    assert_eq!(snap.fetched_at, "2026-09-14T06:00:59+00:00");
    assert_eq!(snap.last_success_at.as_deref(), Some("2026-09-14T04:00:00+00:00"));
}

#[test]
fn dead_message_names_last_success() {
    let mut rt = KeyRuntime::new("k1");
    let t0 = t(2026, 9, 14, 4);
    rt.apply_success(raw(92_000, "x"), at(t0));
    rt.apply_failure(FetchError::Http, at(t0 + 60));
    let snap = rt.build_snapshot(at(t0 + 60 + 86400));
    assert_eq!(snap.failure_level, FailureLevel::Dead);
    assert_eq!(snap.error_message.as_deref(), Some("接口可能已失效，上次成功：2026-09-14T04:00:00+00:00"));
}

#[test]
fn dead_without_any_success_has_empty_time() {
    let mut rt = KeyRuntime::new("k1");
    let t0 = t(2026, 9, 14, 4);
    rt.apply_failure(FetchError::Parse, at(t0));
    let snap = rt.build_snapshot(at(t0 + 86400));
    assert_eq!(snap.failure_level, FailureLevel::Dead);
    assert_eq!(snap.error_message.as_deref(), Some("接口可能已失效，上次成功："));
    assert_eq!(snap.session_ppm, None);
    assert_eq!(snap.last_success_at, None);
}

#[test]
fn degraded_without_success_says_no_data_yet() {
    let mut rt = KeyRuntime::new("k1");
    let t0 = t(2026, 9, 14, 4);
    rt.apply_failure(FetchError::Network, at(t0));
    let snap = rt.build_snapshot(at(t0 + 60));
    assert_eq!(snap.failure_level, FailureLevel::Degraded);
    assert_eq!(snap.error_message.as_deref(), Some("尚无成功数据"));
    assert_eq!(snap.session_reset_est, None);
    assert!(snap.session_models.is_empty());
}

#[test]
fn invalid_key_message() {
    let mut rt = KeyRuntime::new("k1");
    let t0 = t(2026, 9, 14, 4);
    rt.apply_failure(FetchError::Auth, at(t0));
    let snap = rt.build_snapshot(at(t0 + 3 * 86400));
    assert_eq!(snap.failure_level, FailureLevel::InvalidKey);
    assert_eq!(snap.error_message.as_deref(), Some("key 无效或已撤销"));
}

#[test]
fn fresh_key_snapshot_is_healthy_and_empty() {
    let mut rt = KeyRuntime::new("k1");
    let snap = rt.build_snapshot(at(0));
    assert_eq!(snap.failure_level, FailureLevel::Healthy);
    assert_eq!(snap.error_message, None);
    assert_eq!(snap.fetched_at, "1970-01-01T00:00:00+00:00");
    assert_eq!(rt.alias(), "k1");
}

#[test]
fn first_failure_time_is_kept_across_failures() {
    let mut rt = KeyRuntime::new("k1");
    let t0 = t(2026, 9, 14, 0);
    rt.apply_failure(FetchError::Network, at(t0));
    rt.apply_failure(FetchError::Network, at(t0 + 20 * 3600));
    assert_eq!(rt.failure_level(at(t0 + 86400 - 1)), FailureLevel::Degraded);
    assert_eq!(rt.failure_level(at(t0 + 86400)), FailureLevel::Dead);
    // A later success clears everything.
    rt.apply_success(raw(1, "s"), at(t0 + 86400 + 5));
    assert_eq!(rt.failure_level(at(t0 + 10 * 86400)), FailureLevel::Healthy);
}

#[test]
fn latest_failure_kind_decides() {
    let mut rt = KeyRuntime::new("k1");
    let t0 = t(2026, 9, 14, 0);
    rt.apply_failure(FetchError::Auth, at(t0));
    rt.apply_failure(FetchError::Network, at(t0 + 60));
    assert_eq!(rt.failure_level(at(t0 + 120)), FailureLevel::Degraded);
    rt.apply_failure(FetchError::Auth, at(t0 + 180));
    assert_eq!(rt.failure_level(at(t0 + 240)), FailureLevel::InvalidKey);
}

#[test]
fn changing_server_time_restarts_stall_count() {
    let mut rt = KeyRuntime::new("k1");
    let t0 = t(2026, 9, 14, 0);
    for i in 0..4 {
        rt.apply_success(raw(1, "same"), at(t0 + i));
    }
    assert!(!rt.server_time_stalled());
    rt.apply_success(raw(1, "other"), at(t0 + 10));
    assert!(!rt.server_time_stalled());
    for i in 0..4 {
        rt.apply_success(raw(1, "other"), at(t0 + 20 + i));
    }
    assert!(rt.server_time_stalled());
    let mut none = raw(1, "x");
    none.server_time = None;
    rt.apply_success(none, at(t0 + 30));
    assert!(!rt.server_time_stalled());
}
