use ollamabar_lib::ollama::{FetchError, RawUsage};
use ollamabar_lib::runtimes::{build_state, RuntimeTable};
use ollamabar_lib::state::KeyRuntime;
use ollamabar_lib::store::StoreMsg;
use ollamabar_lib::types::{FailureLevel, ModelStat};
use ollamabar_lib::calendar::UtcTime;

fn at(secs: i64) -> UtcTime {
    UtcTime { secs, nanos: 0 }
}

const T0: i64 = 1_789_358_400; // 2026-09-14T04:00:00Z

fn raw(ppm: u32) -> RawUsage {
    RawUsage {
        session_ppm: ppm,
        weekly_ppm: 10,
        session_models: vec![ModelStat { name: "m".into(), request_count: 1 }],
        weekly_models: vec![],
        server_time: Some("srv".into()),
    }
}

#[test]
fn state_lists_keys_in_alias_order() {
    let mut table = RuntimeTable::new();
    table.insert(KeyRuntime::new("zeta"));
    table.insert(KeyRuntime::new("alpha"));
    table.insert(KeyRuntime::new("工作"));
    table.insert(KeyRuntime::new("alpha"));
    assert_eq!(table.len(), 3);
    let st = build_state(&mut table, at(T0), at(T0 + 1));
    let aliases: Vec<&str> = st.keys.iter().map(|k| k.alias.as_str()).collect();
    assert_eq!(aliases, vec!["alpha", "zeta", "工作"]);
    assert_eq!(st.generated_at, "2026-09-14T04:00:01+00:00");
    for k in &st.keys {
        let s = k.snapshot.as_ref().unwrap();
        assert_eq!(s.failure_level, FailureLevel::Healthy);
        assert_eq!(s.fetched_at, "2026-09-14T04:00:00+00:00");
    }
}

#[test]
fn removed_key_leaves_state() {
    let mut table = RuntimeTable::new();
    table.insert(KeyRuntime::new("a"));
    table.insert(KeyRuntime::new("b"));
    table.remove(&"a".to_string());
    table.remove(&"missing".to_string());
    let st = build_state(&mut table, at(T0), at(T0));
    assert_eq!(st.keys.len(), 1);
    assert_eq!(st.keys[0].alias, "b");
    assert_eq!(table.position(&"a".to_string()), None);
    assert_eq!(table.position(&"b".to_string()), Some(0));
}

#[test]
fn fetch_success_yields_sample_and_reset_messages() {
    let mut table = RuntimeTable::new();
    table.insert(KeyRuntime::new("k1"));
    let alias = "k1".to_string();
    let (ok, msgs) = table.record_fetch(&alias, Ok(raw(400_000)), at(T0));
    assert!(ok);
    assert_eq!(msgs.len(), 1);
    match &msgs[0] {
        StoreMsg::Sample(row) => {
            assert_eq!(row.alias, "k1");
            assert_eq!(row.fetched_at, "2026-09-14T04:00:00+00:00");
            assert_eq!(row.session_ppm, 400_000);
            assert_eq!(row.weekly_ppm, 10);
            assert_eq!(row.session_models.len(), 1);
            assert_eq!(row.server_time.as_deref(), Some("srv"));
        }
        other => panic!("unexpected {:?}", other),
    }
    let (ok, msgs) = table.record_fetch(&alias, Ok(raw(20_000)), at(T0 + 60));
    assert!(ok);
    assert_eq!(msgs.len(), 2);
    match &msgs[0] {
        StoreMsg::ResetEvent { alias, observed_at, kind } => {
            assert_eq!(alias, "k1");
            assert_eq!(observed_at, "2026-09-14T04:01:00+00:00");
            assert_eq!(kind, "session");
        }
        other => panic!("unexpected {:?}", other),
    }
    assert!(matches!(msgs[1], StoreMsg::Sample(_)));
}

#[test]
fn fetch_failure_and_unknown_alias() {
    let mut table = RuntimeTable::new();
    table.insert(KeyRuntime::new("k1"));
    let (ok, msgs) = table.record_fetch(&"k1".to_string(), Err(FetchError::Auth), at(T0));
    assert!(!ok);
    assert_eq!(msgs.len(), 1);
    assert!(matches!(msgs[0], StoreMsg::StateDirty));
    let st = build_state(&mut table, at(T0), at(T0));
    assert_eq!(st.keys[0].snapshot.as_ref().unwrap().failure_level, FailureLevel::InvalidKey);
    let (ok, msgs) = table.record_fetch(&"nobody".to_string(), Ok(raw(1)), at(T0));
    assert!(!ok);
    assert!(msgs.is_empty());
}
