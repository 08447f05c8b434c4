use ollamabar_lib::commands::{
    export_file_name, export_text, history_cutoff, retention_cutoff, sanitize_filename, ExportRow,
};
use ollamabar_lib::config::{prepare_key, AppConfig, CommandError, KeyConfig};
use ollamabar_lib::ollama::{
    response_outcome, status_error, validate_usage, FetchError, RawUsage, UsageDocument,
};
use ollamabar_lib::poller::{refresh_result, PollAction, PollConfig, PollEvent, RateLimiter};
use ollamabar_lib::types::{ModelStat, RefreshResult};
use ollamabar_lib::calendar::UtcTime;

fn at(secs: i64) -> UtcTime {
    UtcTime { secs, nanos: 0 }
}

fn doc(session: i64, weekly: i64) -> UsageDocument {
    UsageDocument {
        session_usage_ppm: session,
        weekly_usage_ppm: weekly,
        session_models: vec![ModelStat { name: "gpt-oss:120b".into(), request_count: 242 }],
        weekly_models: vec![],
        server_time: Some("2026-09-15T06:29:56Z".into()),
    }
}

#[test]
fn usage_document_checks() {
    let raw = validate_usage(doc(92_000, 49_000)).unwrap();
    assert_eq!(raw.session_ppm, 92_000);
    assert_eq!(raw.weekly_ppm, 49_000);
    assert_eq!(raw.session_models[0].request_count, 242);
    assert_eq!(raw.server_time.as_deref(), Some("2026-09-15T06:29:56Z"));
    assert!(validate_usage(doc(1_500_000, 200_000)).is_none());
    assert!(validate_usage(doc(100_000, -1)).is_none());
    assert!(validate_usage(doc(0, 1_000_000)).is_some());
}

#[test]
fn status_and_response_outcomes() {
    assert_eq!(status_error(200), None);
    assert_eq!(status_error(401), Some(FetchError::Auth));
    assert_eq!(status_error(403), Some(FetchError::Auth));
    assert_eq!(status_error(500), Some(FetchError::Http));
    assert_eq!(status_error(404), Some(FetchError::Http));
    let ok = response_outcome(200, validate_usage(doc(1, 1)));
    assert!(ok.is_ok());
    assert!(matches!(response_outcome(200, None), Err(FetchError::Parse)));
    assert!(matches!(response_outcome(401, None), Err(FetchError::Auth)));
    let unused: Option<RawUsage> = validate_usage(doc(1, 1));
    assert!(matches!(response_outcome(502, unused), Err(FetchError::Http)));
}

#[test]
fn fetch_error_texts() {
    assert_eq!(FetchError::Network.text(), "网络请求失败或超时");
    assert_eq!(FetchError::Auth.text(), "key 无效或已撤销（HTTP 401/403）");
    assert_eq!(FetchError::Http.text(), "HTTP 状态异常");
    assert_eq!(FetchError::Parse.text(), "返回结构解析失败（接口可能已变更）");
}

#[test]
fn new_key_input_is_trimmed_and_checked() {
    let k = prepare_key("  工作 ", "\tsk-x \n").unwrap();
    assert_eq!(k.alias, "工作");
    assert_eq!(k.api_key, "sk-x");
    assert_eq!(prepare_key("   ", "sk").unwrap_err(), CommandError::EmptyAlias);
    assert_eq!(prepare_key("", "").unwrap_err(), CommandError::EmptyAlias);
    assert_eq!(prepare_key("a", " \u{3000} ").unwrap_err(), CommandError::EmptyApiKey);
}

#[test]
fn config_add_remove_and_retention() {
    let mut cfg = AppConfig::default();
    assert!(cfg.keys.is_empty());
    assert_eq!(cfg.poll_interval_secs, 60);
    assert_eq!(cfg.log_retention_days, 7);
    cfg.add_key(KeyConfig { alias: "a".into(), api_key: "1".into() }).unwrap();
    cfg.add_key(KeyConfig { alias: "b".into(), api_key: "2".into() }).unwrap();
    assert_eq!(
        cfg.add_key(KeyConfig { alias: "a".into(), api_key: "3".into() }),
        Err(CommandError::DuplicateAlias)
    );
    assert_eq!(cfg.keys.len(), 2);
    cfg.remove_key("a");
    assert_eq!(cfg.keys.len(), 1);
    assert_eq!(cfg.keys[0].alias, "b");
    cfg.remove_key("zzz");
    assert_eq!(cfg.keys.len(), 1);
    assert_eq!(cfg.set_retention(14), Err(CommandError::UnsupportedRetention));
    assert_eq!(cfg.log_retention_days, 7);
    assert_eq!(cfg.set_retention(30), Ok(()));
    assert_eq!(cfg.log_retention_days, 30);
}

#[test]
fn command_error_texts() {
    assert_eq!(CommandError::EmptyAlias.text(), "别名不能为空");
    assert_eq!(CommandError::EmptyApiKey.text(), "api_key 不能为空");
    assert_eq!(CommandError::DuplicateAlias.text(), "别名已存在");
    assert_eq!(CommandError::UnknownKey.text(), "key 不存在");
    assert_eq!(CommandError::UnsupportedRetention.text(), "保留天数仅支持 7 或 30");
}

#[test]
fn file_names_are_sanitized() {
    assert_eq!(sanitize_filename("a\\b/c:d*e?f\"g<h>i|j"), "a_b_c_d_e_f_g_h_i_j");
    assert_eq!(sanitize_filename("工作 key"), "工作 key");
    assert_eq!(sanitize_filename(""), "");
    assert_eq!(export_file_name("w/x"), "ollamabar-w_x.log.txt");
}

#[test]
fn cutoffs() {
    let now = 1_789_358_400; // 2026-09-14T04:00:00Z
    assert_eq!(retention_cutoff(at(now), 7), "2026-09-07T04:00:00+00:00");
    assert_eq!(history_cutoff(at(now), 24), "2026-09-13T04:00:00+00:00");
}

#[test]
fn rate_limit_shared_by_ticks_and_refreshes() {
    let cfg = PollConfig { interval_ms: 60_000, min_gap_ms: 2000 };
    let mut g = RateLimiter::new();
    assert_eq!(g.on_event(&cfg, PollEvent::Refresh, 0), PollAction::Fetch);
    assert_eq!(g.on_event(&cfg, PollEvent::Refresh, 1999), PollAction::RateLimited);
    assert_eq!(g.on_event(&cfg, PollEvent::Tick, 1999), PollAction::Skip);
    assert_eq!(g.on_event(&cfg, PollEvent::Tick, 2000), PollAction::Fetch);
    assert_eq!(g.last_request_ms, Some(2000));
    assert_eq!(g.on_event(&cfg, PollEvent::Stop, 9999), PollAction::Stop);
    assert_eq!(g.last_request_ms, Some(2000));
    assert_eq!(refresh_result(true), RefreshResult::Updated);
    assert_eq!(refresh_result(false), RefreshResult::Failed);
    let c = PollConfig::every_secs(60);
    assert_eq!((c.interval_ms, c.min_gap_ms), (60_000, 2000));
    assert_eq!(PollConfig::every_secs(u64::MAX).interval_ms, u64::MAX);
}

#[test]
fn cutoffs_keep_the_fraction_of_a_second() {
    let now = UtcTime { secs: 1_789_358_400, nanos: 250_000_000 };
    assert_eq!(retention_cutoff(now, 30), "2026-08-15T04:00:00.250+00:00");
    assert_eq!(history_cutoff(now, 1), "2026-09-14T03:00:00.250+00:00");
}

fn export_row(kind: &str, time: &str, message: Option<&str>) -> ExportRow {
    ExportRow {
        kind: kind.into(),
        time: time.into(),
        session_pct: "9.20".into(),
        session_req: Some(12),
        weekly_pct: "0.00".into(),
        weekly_req: None,
        message: message.map(|m| m.to_string()),
    }
}

#[test]
fn export_text_lists_rows_oldest_first() {
    // Rows come newest first, as the detail log lists them.
    let rows = vec![
        export_row("error", "2026-09-14 12:03:00", None),
        export_row("reset", "2026-09-14 12:02:00", Some("session")),
        export_row("ok", "2026-09-14 12:01:00", None),
        export_row("ok", "2026-09-14 12:00:00", Some("2026-09-15T06:29:56Z")),
    ];
    let text = export_text("工作", "2026-09-14 13:00:00", &rows);
    assert_eq!(
        text,
        "===== OllamaBar 工作 导出于 2026-09-14 13:00:00 =====\n\
         2026-09-14 12:00:00 | 5h=9.20% req=12 | week=0.00% req=0 | server=2026-09-15T06:29:56Z\n\
         2026-09-14 12:01:00 | 5h=9.20% req=12 | week=0.00% req=0 | server=-\n\
         2026-09-14 12:02:00 | RESET | session\n\
         2026-09-14 12:03:00 | ERROR | 未知错误\n"
    );
    assert_eq!(export_text("k", "t", &vec![]), "===== OllamaBar k 导出于 t =====\n");
    let blank_reset = vec![export_row("reset", "t1", None), export_row("error", "t0", Some("网络错误"))];
    assert_eq!(
        export_text("k", "t", &blank_reset),
        "===== OllamaBar k 导出于 t =====\nt0 | ERROR | 网络错误\nt1 | RESET | \n"
    );
}
