use ollamabar_lib::store::{
    merge_log_rows, total_requests, EventRow, LogEntry, ResetRow, SampleLogRow, SampleRow,
};
use ollamabar_lib::types::{ModelStat, Sample};

fn sample(ts: &str, ppm: i64, counts: &[i64]) -> SampleLogRow {
    SampleLogRow {
        fetched_at: ts.into(),
        session_ppm: Some(ppm),
        weekly_ppm: Some(ppm * 2),
        session_models: Some(
            counts.iter().map(|c| ModelStat { name: "m".into(), request_count: *c }).collect(),
        ),
        weekly_models: Some(vec![]),
        server_time: None,
    }
}

fn kinds(log: &[LogEntry]) -> Vec<&str> {
    log.iter().map(|e| e.kind.as_str()).collect()
}

#[test]
fn merged_log_is_newest_first() {
    let t0 = "2026-09-15T04:00:00+00:00";
    let t1 = "2026-09-15T05:00:00+00:00";
    let t2 = "2026-09-15T06:00:00+00:00";
    let samples = vec![sample(t0, 50_000, &[1])];
    let events =
        vec![EventRow { ts: t1.into(), kind: "error".into(), message: Some("网络请求失败或超时".into()) }];
    let resets = vec![ResetRow { observed_at: t2.into(), kind: "session".into() }];
    let log = merge_log_rows(&samples, &events, &resets, 100);
    assert_eq!(log.len(), 3);
    assert_eq!(log[0].kind, "reset");
    assert_eq!(log[0].message.as_deref(), Some("5h 窗口重置（实测）"));
    assert_eq!(log[1].kind, "error");
    assert_eq!(log[1].message.as_deref(), Some("网络请求失败或超时"));
    assert_eq!(log[2].kind, "ok");
    assert_eq!(log[2].session_req, Some(1));
    assert_eq!(log[2].session_ppm, Some(50_000));
    assert_eq!(log[2].weekly_ppm, Some(100_000));
    // The limit cuts the oldest rows.
    let short = merge_log_rows(&samples, &events, &resets, 2);
    assert_eq!(kinds(&short), vec!["reset", "error"]);
    // No rows at all.
    assert!(merge_log_rows(&vec![], &vec![], &vec![], 100).is_empty());
}

#[test]
fn weekly_reset_message() {
    let resets = vec![ResetRow { observed_at: "x".into(), kind: "weekly".into() }];
    let log = merge_log_rows(&vec![], &vec![], &resets, 10);
    assert_eq!(log[0].message.as_deref(), Some("每周窗口重置（实测）"));
    assert_eq!(log[0].ts, "x");
}

#[test]
fn equal_timestamps_keep_read_order() {
    let t = "2026-09-15T04:00:00+00:00";
    let samples = vec![sample(t, 1, &[]), sample(t, 2, &[])];
    let events = vec![EventRow { ts: t.into(), kind: "error".into(), message: None }];
    let resets = vec![ResetRow { observed_at: t.into(), kind: "session".into() }];
    let log = merge_log_rows(&samples, &events, &resets, 10);
    assert_eq!(kinds(&log), vec!["ok", "ok", "error", "reset"]);
    assert_eq!(log[0].session_ppm, Some(1));
    assert_eq!(log[1].session_ppm, Some(2));
    assert_eq!(log[2].message, None);
}

#[test]
fn many_rows_are_sorted_descending_and_stable() {
    let mut samples = Vec::new();
    for i in 0..300i64 {
        let minute = (i * 37) % 60;
        samples.push(sample(&format!("2026-09-15T04:{:02}:00+00:00", minute), i, &[]));
    }
    let log = merge_log_rows(&samples, &vec![], &vec![], 1000);
    assert_eq!(log.len(), 300);
    for w in log.windows(2) {
        assert!(w[0].ts >= w[1].ts);
        if w[0].ts == w[1].ts {
            assert!(w[0].session_ppm < w[1].session_ppm);
        }
    }
}

#[test]
fn request_totals() {
    let ms = vec![
        ModelStat { name: "a".into(), request_count: 242 },
        ModelStat { name: "b".into(), request_count: 575 },
    ];
    assert_eq!(total_requests(&ms), Some(817));
    assert_eq!(total_requests(&vec![]), Some(0));
    let big = vec![
        ModelStat { name: "a".into(), request_count: i64::MAX },
        ModelStat { name: "b".into(), request_count: 1 },
    ];
    assert_eq!(total_requests(&big), None);
    let undecodable = SampleLogRow {
        fetched_at: "t".into(),
        session_ppm: None,
        weekly_ppm: None,
        session_models: None,
        weekly_models: Some(ms),
        server_time: Some("srv".into()),
    };
    let log = merge_log_rows(&vec![undecodable], &vec![], &vec![], 5);
    assert_eq!(log[0].session_req, None);
    assert_eq!(log[0].weekly_req, Some(817));
    assert_eq!(log[0].message.as_deref(), Some("srv"));
}

#[test]
fn sample_from_row() {
    let row = SampleRow {
        alias: "k1".into(),
        fetched_at: "2026-09-15T04:00:00+00:00".into(),
        session_ppm: 92_000,
        weekly_ppm: 49_000,
        session_models: vec![ModelStat { name: "m".into(), request_count: 1 }],
        weekly_models: vec![],
        server_time: None,
    };
    let s: Sample = row.into();
    assert_eq!(s.ts, "2026-09-15T04:00:00+00:00");
    assert_eq!(s.session_ppm, 92_000);
    assert_eq!(s.weekly_ppm, 49_000);
    assert_eq!(s.session_models.len(), 1);
}
