use crate::types::ModelStat;
use vstd::prelude::*;

verus! {

/// A usage share of a whole window, in millionths.
pub const FULL_WINDOW_PPM: i64 = 1000000;

/// One successful reading of the usage endpoint. Shares are in millionths of
/// the window (`0..=1_000_000`).
#[derive(Debug)]
pub struct RawUsage {
    pub session_ppm: u32,
    pub weekly_ppm: u32,
    pub session_models: Vec<ModelStat>,
    pub weekly_models: Vec<ModelStat>,
    pub server_time: Option<String>,
}

impl RawUsage {
    /// A field-by-field copy.
    pub fn duplicate(&self) -> (r: RawUsage)
        ensures
            r.session_ppm == self.session_ppm,
            r.weekly_ppm == self.weekly_ppm,
            r.session_models@ == self.session_models@,
            r.weekly_models@ == self.weekly_models@,
            r.server_time == self.server_time,
    {
        RawUsage {
            session_ppm: self.session_ppm,
            weekly_ppm: self.weekly_ppm,
            session_models: crate::types::duplicate_models(&self.session_models),
            weekly_models: crate::types::duplicate_models(&self.weekly_models),
            server_time: crate::types::duplicate_text(&self.server_time),
        }
    }
}

/// The usage document as decoded from the response body, before its checks:
/// `limits.session.usage` and `limits.weekly.usage` scaled to millionths, the two
/// model lists (empty where the body has none) and `activity.period.ending_at`.
#[derive(Debug)]
pub struct UsageDocument {
    pub session_usage_ppm: i64,
    pub weekly_usage_ppm: i64,
    pub session_models: Vec<ModelStat>,
    pub weekly_models: Vec<ModelStat>,
    pub server_time: Option<String>,
}

/// A share lies within one whole window.
pub open spec fn valid_share(ppm: int) -> bool {
    0 <= ppm <= FULL_WINDOW_PPM
}

/// Accepts a decoded document only when both shares lie in `[0, 1]` of the window.
pub fn validate_usage(doc: UsageDocument) -> (r: Option<RawUsage>)
    ensures
        r is Some <==> valid_share(doc.session_usage_ppm as int) && valid_share(
            doc.weekly_usage_ppm as int,
        ),
        r matches Some(u) ==> {
            &&& u.session_ppm == doc.session_usage_ppm
            &&& u.weekly_ppm == doc.weekly_usage_ppm
            &&& u.session_models == doc.session_models
            &&& u.weekly_models == doc.weekly_models
            &&& u.server_time == doc.server_time
        },
{
    if 0 <= doc.session_usage_ppm && doc.session_usage_ppm <= FULL_WINDOW_PPM && 0
        <= doc.weekly_usage_ppm && doc.weekly_usage_ppm <= FULL_WINDOW_PPM {
        Some(
            RawUsage {
                session_ppm: doc.session_usage_ppm as u32,
                weekly_ppm: doc.weekly_usage_ppm as u32,
                session_models: doc.session_models,
                weekly_models: doc.weekly_models,
                server_time: doc.server_time,
            },
        )
    } else {
        None
    }
}

/// The error that an HTTP status alone decides: none for 200, `Auth` for 401
/// and 403, `Http` for every other status.
pub fn status_error(status: u16) -> (r: Option<FetchError>)
    ensures
        r == (if status == 200 {
            None::<FetchError>
        } else if status == 401 || status == 403 {
            Some(FetchError::Auth)
        } else {
            Some(FetchError::Http)
        }),
{
    if status == 200 {
        None
    } else if status == 401 || status == 403 {
        Some(FetchError::Auth)
    } else {
        Some(FetchError::Http)
    }
}

/// The outcome of a request that got an answer: the status decides first, and a
/// body that does not pass the checks is a `Parse` error.
pub fn response_outcome(status: u16, parsed: Option<RawUsage>) -> (r: Result<RawUsage, FetchError>)
    ensures
        status != 200 ==> r == Err::<RawUsage, FetchError>(
            if status == 401 || status == 403 {
                FetchError::Auth
            } else {
                FetchError::Http
            },
        ),
        status == 200 ==> r == match parsed {
            Some(u) => Ok::<RawUsage, FetchError>(u),
            None => Err(FetchError::Parse),
        },
{
    match status_error(status) {
        Some(e) => Err(e),
        None => match parsed {
            Some(u) => Ok(u),
            None => Err(FetchError::Parse),
        },
    }
}

/// Why one fetch of the usage endpoint failed.
#[derive(Debug, Clone, Copy, PartialEq, Eq)]
pub enum FetchError {
    Network,
    Auth,
    Http,
    Parse,
}

impl FetchError {
    /// The message shown in logs and banners for this error.
    pub fn text(&self) -> (s: &'static str)
        ensures
            s@ == match *self {
                FetchError::Network => "网络请求失败或超时"@,
                FetchError::Auth => "key 无效或已撤销（HTTP 401/403）"@,
                FetchError::Http => "HTTP 状态异常"@,
                FetchError::Parse => "返回结构解析失败（接口可能已变更）"@,
            },
    {
        match self {
            FetchError::Network => "网络请求失败或超时",
            FetchError::Auth => "key 无效或已撤销（HTTP 401/403）",
            FetchError::Http => "HTTP 状态异常",
            FetchError::Parse => "返回结构解析失败（接口可能已变更）",
        }
    }
}

} // verus!
