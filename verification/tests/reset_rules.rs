use chrono::{DateTime, Datelike, TimeZone, Utc};
use ollamabar_lib::reset::{next_session_reset, next_weekly_reset};

fn ts(y: i32, mo: u32, d: u32, h: u32, mi: u32, s: u32) -> i64 {
    Utc.with_ymd_and_hms(y, mo, d, h, mi, s).unwrap().timestamp()
}

#[test]
fn weekly_exactly_monday_midnight_takes_next_monday() {
    // 2026-09-14 is a Monday
    let now = ts(2026, 9, 14, 0, 0, 0);
    let r = next_weekly_reset(now);
    assert_eq!(r, ts(2026, 9, 21, 0, 0, 0));
}

#[test]
fn weekly_sunday_late_night_takes_next_monday_midnight() {
    let now = ts(2026, 9, 13, 23, 0, 0); // a Sunday
    let r = next_weekly_reset(now);
    assert_eq!(DateTime::<Utc>::from_timestamp(r, 0).unwrap().weekday(), chrono::Weekday::Mon);
    assert!(r > now);
}

#[test]
fn session_before_boundary_takes_bucket_upper_edge() {
    let boundary = 18000i64 * 12345;
    let now = boundary - 1;
    assert_eq!(next_session_reset(now), boundary);
}

#[test]
fn session_exactly_on_boundary_takes_next_bucket() {
    let boundary = 18000i64 * 12345;
    assert_eq!(next_session_reset(boundary), boundary + 18000);
}

#[test]
fn session_drifts_across_days_without_fixed_hours() {
    let b = 18000i64 * 12345;
    let now = b + 1;
    assert_eq!(next_session_reset(now), b + 18000);
}

#[test]
fn weekly_reset_mid_week_is_next_monday() {
    // Wednesday 2026-09-16 12:34:56 -> Monday 2026-09-21 00:00:00
    assert_eq!(next_weekly_reset(ts(2026, 9, 16, 12, 34, 56)), ts(2026, 9, 21, 0, 0, 0));
    // One second before a Monday midnight -> that midnight
    assert_eq!(next_weekly_reset(ts(2026, 9, 20, 23, 59, 59)), ts(2026, 9, 21, 0, 0, 0));
}

#[test]
fn weekly_reset_before_epoch() {
    // 1969-12-31 (Wednesday) -> Monday 1970-01-05
    assert_eq!(next_weekly_reset(-1), ts(1970, 1, 5, 0, 0, 0));
}

#[test]
fn session_reset_at_epoch_and_before() {
    assert_eq!(next_session_reset(0), 18000);
    // Division rounds toward zero: a second before the epoch lands on 18000.
    assert_eq!(next_session_reset(-1), 18000);
    assert_eq!(next_session_reset(-18000), 0);
}

#[test]
fn weekly_reset_is_strictly_later_for_every_weekday() {
    let start = ts(2026, 1, 1, 0, 0, 0);
    for k in 0..(14 * 24) {
        let now = start + k * 3600;
        let r = next_weekly_reset(now);
        assert!(r > now);
        assert!(r - now <= 7 * 86400);
        let d = DateTime::<Utc>::from_timestamp(r, 0).unwrap();
        assert_eq!(d.weekday(), chrono::Weekday::Mon);
        assert_eq!(r % 86400, 0);
    }
}
