use vstd::prelude::*;

verus! {

/// The three-level failure state of one key, plus the healthy state
/// (serialized as `none`).
#[derive(Debug, Clone, Copy, PartialEq, Eq, Structural)]
pub enum FailureLevel {
    Healthy,
    Degraded,
    InvalidKey,
    Dead,
}

/// Outcome of a manual refresh request.
#[derive(Debug, Clone, Copy, PartialEq, Eq, Structural)]
pub enum RefreshResult {
    Updated,
    RateLimited,
    Failed,
}

/// Requests made to one model within a usage window.
#[derive(Debug)]
pub struct ModelStat {
    pub name: String,
    pub request_count: i64,
}

impl ModelStat {
    /// A field-by-field copy.
    pub fn duplicate(&self) -> (r: ModelStat)
        ensures
            r == *self,
    {
        ModelStat { name: self.name.clone(), request_count: self.request_count }
    }
}

/// Copies a list of model counts element by element.
pub fn duplicate_models(v: &Vec<ModelStat>) -> (r: Vec<ModelStat>)
    ensures
        r@ == v@,
{
    let mut r: Vec<ModelStat> = Vec::new();
    let mut i: usize = 0;
    while i < v.len()
        invariant
            i <= v.len(),
            r@ == v@.subrange(0, i as int),
        decreases v.len() - i,
    {
        r.push(v[i].duplicate());
        i = i + 1;
    }
    assert(r@ =~= v@);
    r
}

/// Copies an optional string.
pub fn duplicate_text(s: &Option<String>) -> (r: Option<String>)
    ensures
        r == *s,
{
    match s {
        Some(t) => Some(t.clone()),
        None => None,
    }
}

/// What the dashboard shows for one key. Usage shares are in millionths of the
/// window (`1_000_000` is a full window, so `10_000` is one percent).
#[derive(Debug)]
pub struct UsageSnapshot {
    pub session_ppm: Option<u32>,
    pub weekly_ppm: Option<u32>,
    pub session_reset_est: Option<String>,
    pub weekly_reset_est: Option<String>,
    pub session_models: Vec<ModelStat>,
    pub weekly_models: Vec<ModelStat>,
    pub server_time: Option<String>,
    pub fetched_at: String,
    pub last_success_at: Option<String>,
    pub failure_level: FailureLevel,
    pub error_message: Option<String>,
}

/// A snapshot with its model lists taken as sequences.
pub struct SnapshotView {
    pub session_ppm: Option<u32>,
    pub weekly_ppm: Option<u32>,
    pub session_reset_est: Option<String>,
    pub weekly_reset_est: Option<String>,
    pub session_models: Seq<ModelStat>,
    pub weekly_models: Seq<ModelStat>,
    pub server_time: Option<String>,
    pub fetched_at: String,
    pub last_success_at: Option<String>,
    pub failure_level: FailureLevel,
    pub error_message: Option<String>,
}

impl View for UsageSnapshot {
    type V = SnapshotView;

    open spec fn view(&self) -> SnapshotView {
        SnapshotView {
            session_ppm: self.session_ppm,
            weekly_ppm: self.weekly_ppm,
            session_reset_est: self.session_reset_est,
            weekly_reset_est: self.weekly_reset_est,
            session_models: self.session_models@,
            weekly_models: self.weekly_models@,
            server_time: self.server_time,
            fetched_at: self.fetched_at,
            last_success_at: self.last_success_at,
            failure_level: self.failure_level,
            error_message: self.error_message,
        }
    }
}

impl UsageSnapshot {
    /// A field-by-field copy.
    pub fn duplicate(&self) -> (r: UsageSnapshot)
        ensures
            r@ == self@,
    {
        UsageSnapshot {
            session_ppm: self.session_ppm,
            weekly_ppm: self.weekly_ppm,
            session_reset_est: duplicate_text(&self.session_reset_est),
            weekly_reset_est: duplicate_text(&self.weekly_reset_est),
            session_models: duplicate_models(&self.session_models),
            weekly_models: duplicate_models(&self.weekly_models),
            server_time: duplicate_text(&self.server_time),
            fetched_at: self.fetched_at.clone(),
            last_success_at: duplicate_text(&self.last_success_at),
            failure_level: self.failure_level,
            error_message: duplicate_text(&self.error_message),
        }
    }
}

/// One key as the dashboard lists it.
#[derive(Debug)]
pub struct KeyState {
    pub alias: String,
    pub snapshot: Option<UsageSnapshot>,
}

/// Everything the dashboard shows at once.
#[derive(Debug)]
pub struct AppState {
    pub keys: Vec<KeyState>,
    pub generated_at: String,
}

/// One point of a usage history curve (shares in millionths of the window).
#[derive(Debug)]
pub struct Sample {
    pub ts: String,
    pub session_ppm: i64,
    pub weekly_ppm: i64,
    pub session_models: Vec<ModelStat>,
}

} // verus!
