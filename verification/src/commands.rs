use crate::calendar::{time_string, time_text, valid_time, valid_timestamp, UtcTime};
use crate::text::{decimal_of, decimal_text, push_char};
use vstd::prelude::*;

verus! {

/// Characters that Windows does not allow in file names.
pub open spec fn forbidden_in_file_name(c: char) -> bool {
    c == '\\' || c == '/' || c == ':' || c == '*' || c == '?' || c == '"' || c == '<' || c == '>'
        || c == '|'
}

/// `name` with every character Windows forbids in file names replaced by `_`.
pub open spec fn sanitized(name: Seq<char>) -> Seq<char> {
    name.map_values(|c: char| if forbidden_in_file_name(c) { '_' } else { c })
}

/// Replaces the characters Windows forbids in file names by underscores.
pub fn sanitize_filename(name: &str) -> (r: String)
    ensures
        r@ == sanitized(name@),
{
    let n = name.unicode_len();
    let mut r = String::new();
    let mut i: usize = 0;
    while i < n
        invariant
            n == name@.len(),
            i <= n,
            r@ == sanitized(name@.subrange(0, i as int)),
        decreases n - i,
    {
        let c = name.get_char(i);
        let d = if c == '\\' || c == '/' || c == ':' || c == '*' || c == '?' || c == '"' || c == '<'
            || c == '>' || c == '|' {
            '_'
        } else {
            c
        };
        push_char(&mut r, d);
        assert(name@.subrange(0, i + 1) =~= name@.subrange(0, i as int).push(c));
        assert(sanitized(name@.subrange(0, i + 1)) =~= sanitized(name@.subrange(0, i as int)).push(
            d,
        ));
        i = i + 1;
    }
    assert(name@.subrange(0, n as int) =~= name@);
    r
}

/// The suggested file name for a key's exported log.
pub fn export_file_name(alias: &str) -> (r: String)
    ensures
        r@ == "ollamabar-"@ + sanitized(alias@) + ".log.txt"@,
{
    let mut r = String::from_str("ollamabar-");
    let s = sanitize_filename(alias);
    r.append(s.as_str());
    r.append(".log.txt");
    r
}

/// The instant `span_secs` seconds before `now`.
pub open spec fn secs_before(now: UtcTime, span_secs: int) -> UtcTime {
    UtcTime { secs: (now.secs - span_secs) as i64, nanos: now.nanos }
}

/// The RFC 3339 text of the instant `days` days before `now`: older log rows
/// are dropped by the retention cleanup.
pub fn retention_cutoff(now: UtcTime, days: i64) -> (s: String)
    requires
        valid_time(now),
        valid_timestamp(now.secs - days * 86400),
    ensures
        s@ == time_text(secs_before(now, days * 86400)),
{
    time_string(UtcTime { secs: now.secs - days * 86400, nanos: now.nanos })
}

/// The RFC 3339 text of the instant `hours` hours before `now`: the history
/// curve starts there.
pub fn history_cutoff(now: UtcTime, hours: i64) -> (s: String)
    requires
        valid_time(now),
        valid_timestamp(now.secs - hours * 3600),
    ensures
        s@ == time_text(secs_before(now, hours * 3600)),
{
    time_string(UtcTime { secs: now.secs - hours * 3600, nanos: now.nanos })
}

/// A detail-log row as the export file shows it: its kind (`ok`, `reset` or
/// `error`), its time and both shares already written out for the reader, its
/// request counts and its message.
pub struct ExportRow {
    pub kind: String,
    pub time: String,
    pub session_pct: String,
    pub session_req: Option<i64>,
    pub weekly_pct: String,
    pub weekly_req: Option<i64>,
    pub message: Option<String>,
}

/// The text of `s`, or `default` when there is none.
pub open spec fn text_or(s: Option<String>, default: Seq<char>) -> Seq<char> {
    match s {
        Some(t) => t@,
        None => default,
    }
}

/// The count, or zero when there is none.
pub open spec fn count_or_zero(n: Option<i64>) -> int {
    match n {
        Some(k) => k as int,
        None => 0,
    }
}

/// One line of the export file for the row `r`.
pub open spec fn export_line(r: ExportRow) -> Seq<char> {
    if r.kind@ == "ok"@ {
        r.time@ + " | 5h="@ + r.session_pct@ + "% req="@ + decimal_of(count_or_zero(r.session_req))
            + " | week="@ + r.weekly_pct@ + "% req="@ + decimal_of(count_or_zero(r.weekly_req))
            + " | server="@ + text_or(r.message, "-"@)
    } else if r.kind@ == "reset"@ {
        r.time@ + " | RESET | "@ + text_or(r.message, ""@)
    } else {
        r.time@ + " | ERROR | "@ + text_or(r.message, "未知错误"@)
    }
}

/// The lines for `rows`, which come newest first, written oldest first, each
/// ended by a line break.
pub open spec fn export_lines(rows: Seq<ExportRow>) -> Seq<char>
    decreases rows.len(),
{
    if rows.len() == 0 {
        Seq::empty()
    } else {
        export_lines(rows.drop_first()) + export_line(rows[0]) + "\n"@
    }
}

/// The first line of the export file of the key `alias`, written at `at`.
pub open spec fn export_header(alias: Seq<char>, at: Seq<char>) -> Seq<char> {
    "===== OllamaBar "@ + alias + " 导出于 "@ + at + " ====="@
}

/// One line of the export file.
fn export_line_text(r: &ExportRow) -> (s: String)
    ensures
        s@ == export_line(*r),
{
    let ok = String::from_str("ok");
    let reset = String::from_str("reset");
    let mut s = r.time.clone();
    if r.kind == ok {
        s.append(" | 5h=");
        s.append(r.session_pct.as_str());
        s.append("% req=");
        let sreq = match r.session_req {
            Some(k) => k,
            None => 0,
        };
        s.append(decimal_text(sreq).as_str());
        s.append(" | week=");
        s.append(r.weekly_pct.as_str());
        s.append("% req=");
        let wreq = match r.weekly_req {
            Some(k) => k,
            None => 0,
        };
        s.append(decimal_text(wreq).as_str());
        s.append(" | server=");
        match &r.message {
            Some(m) => s.append(m.as_str()),
            None => s.append("-"),
        }
    } else if r.kind == reset {
        s.append(" | RESET | ");
        match &r.message {
            Some(m) => s.append(m.as_str()),
            None => s.append(""),
        }
    } else {
        s.append(" | ERROR | ");
        match &r.message {
            Some(m) => s.append(m.as_str()),
            None => s.append("未知错误"),
        }
    }
    s
}

/// The text of the export file of the key `alias`, written at `exported_at`:
/// the header line, then one line per row, oldest first (`rows` come newest
/// first, as the detail log lists them).
pub fn export_text(alias: &str, exported_at: &str, rows: &Vec<ExportRow>) -> (s: String)
    ensures
        s@ == export_header(alias@, exported_at@) + "\n"@ + export_lines(rows@),
{
    let mut s = String::from_str("===== OllamaBar ");
    s.append(alias);
    s.append(" 导出于 ");
    s.append(exported_at);
    s.append(" =====");
    s.append("\n");
    let ghost head = s@;
    let n = rows.len();
    let mut i = n;
    assert(rows@.subrange(n as int, n as int) =~= Seq::<ExportRow>::empty());
    while i > 0
        invariant
            i <= n == rows@.len(),
            head == export_header(alias@, exported_at@) + "\n"@,
            s@ == head + export_lines(rows@.subrange(i as int, n as int)),
        decreases i,
    {
        let line = export_line_text(&rows[i - 1]);
        s.append(line.as_str());
        s.append("\n");
        proof {
            let sub = rows@.subrange(i - 1, n as int);
            assert(sub.drop_first() =~= rows@.subrange(i as int, n as int));
            assert(sub[0] == rows@[i - 1]);
        }
        i = i - 1;
    }
    assert(rows@.subrange(0, n as int) =~= rows@);
    s
}

} // verus!
