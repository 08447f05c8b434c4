use crate::order::{compare_text, lemma_lex_asymmetric, lemma_lex_irreflexive, lemma_lex_transitive, lex_lt, text_key, Cmp};
use crate::types::{duplicate_text, ModelStat, Sample};
use vstd::prelude::*;

verus! {

broadcast use vstd::seq_lib::group_seq_properties;

/// One row of the detail log: a success (`ok`), a failure (`error`) or an
/// observed window reset (`reset`). Shares are in millionths of the window.
#[derive(Debug)]
pub struct LogEntry {
    pub ts: String,
    pub kind: String,
    pub session_ppm: Option<i64>,
    pub weekly_ppm: Option<i64>,
    pub session_req: Option<i64>,
    pub weekly_req: Option<i64>,
    pub message: Option<String>,
}

/// A log row with its texts taken as character sequences.
pub struct LogEntryView {
    pub ts: Seq<char>,
    pub kind: Seq<char>,
    pub session_ppm: Option<i64>,
    pub weekly_ppm: Option<i64>,
    pub session_req: Option<i64>,
    pub weekly_req: Option<i64>,
    pub message: Option<Seq<char>>,
}

/// The characters of an optional text.
pub open spec fn text_view(s: Option<String>) -> Option<Seq<char>> {
    match s {
        Some(t) => Some(t@),
        None => None,
    }
}

impl View for LogEntry {
    type V = LogEntryView;

    open spec fn view(&self) -> LogEntryView {
        LogEntryView {
            ts: self.ts@,
            kind: self.kind@,
            session_ppm: self.session_ppm,
            weekly_ppm: self.weekly_ppm,
            session_req: self.session_req,
            weekly_req: self.weekly_req,
            message: text_view(self.message),
        }
    }
}

impl LogEntry {
    /// A field-by-field copy.
    pub fn duplicate(&self) -> (r: LogEntry)
        ensures
            r@ == self@,
    {
        LogEntry {
            ts: self.ts.clone(),
            kind: self.kind.clone(),
            session_ppm: self.session_ppm,
            weekly_ppm: self.weekly_ppm,
            session_req: self.session_req,
            weekly_req: self.weekly_req,
            message: duplicate_text(&self.message),
        }
    }
}

/// A stored successful reading as the log reads it back: the shares (absent where
/// the stored value is missing) and the model lists (absent where the stored list
/// could not be decoded).
#[derive(Debug)]
pub struct SampleLogRow {
    pub fetched_at: String,
    pub session_ppm: Option<i64>,
    pub weekly_ppm: Option<i64>,
    pub session_models: Option<Vec<ModelStat>>,
    pub weekly_models: Option<Vec<ModelStat>>,
    pub server_time: Option<String>,
}

/// A stored failure or other sparse event.
#[derive(Debug)]
pub struct EventRow {
    pub ts: String,
    pub kind: String,
    pub message: Option<String>,
}

/// A stored observed window reset.
#[derive(Debug)]
pub struct ResetRow {
    pub observed_at: String,
    pub kind: String,
}

/// The sum of the request counts of a list of models.
pub open spec fn sum_counts(s: Seq<ModelStat>) -> int
    decreases s.len(),
{
    if s.len() == 0 {
        0
    } else {
        sum_counts(s.drop_last()) + s.last().request_count
    }
}

/// The total request count, when it fits in an `i64`.
pub open spec fn request_total(s: Seq<ModelStat>) -> Option<i64> {
    if i64::MIN <= sum_counts(s) <= i64::MAX {
        Some(sum_counts(s) as i64)
    } else {
        None
    }
}

/// Adds up the request counts of a list of models; `None` when the total does
/// not fit in an `i64`.
pub fn total_requests(models: &Vec<ModelStat>) -> (r: Option<i64>)
    ensures
        r == request_total(models@),
{
    let n = models.len();
    let mut acc: i128 = 0;
    let mut i: usize = 0;
    while i < n
        invariant
            n == models@.len(),
            i <= n,
            acc == sum_counts(models@.subrange(0, i as int)),
            i * (i64::MIN as int) <= acc <= i * (i64::MAX as int),
        decreases models@.len() - i,
    {
        proof {
            assert(models@.subrange(0, i + 1).drop_last() =~= models@.subrange(0, i as int));
            assert((i + 1) * (i64::MAX as int) <= (usize::MAX as int) * (i64::MAX as int))
                by (nonlinear_arith)
                requires
                    i < usize::MAX,
            ;
            assert((i + 1) * (i64::MIN as int) >= (usize::MAX as int) * (i64::MIN as int))
                by (nonlinear_arith)
                requires
                    i < usize::MAX,
            ;
        }
        acc = acc + models[i].request_count as i128;
        i = i + 1;
    }
    assert(models@.subrange(0, i as int) =~= models@);
    if i64::MIN as i128 <= acc && acc <= i64::MAX as i128 {
        Some(acc as i64)
    } else {
        None
    }
}

/// The log row shown for a stored successful reading.
pub open spec fn sample_entry(r: SampleLogRow) -> LogEntryView {
    LogEntryView {
        ts: r.fetched_at@,
        kind: "ok"@,
        session_ppm: r.session_ppm,
        weekly_ppm: r.weekly_ppm,
        session_req: match r.session_models {
            Some(m) => request_total(m@),
            None => None,
        },
        weekly_req: match r.weekly_models {
            Some(m) => request_total(m@),
            None => None,
        },
        message: text_view(r.server_time),
    }
}

/// The log row shown for a stored event.
pub open spec fn event_entry(e: EventRow) -> LogEntryView {
    LogEntryView {
        ts: e.ts@,
        kind: e.kind@,
        session_ppm: None,
        weekly_ppm: None,
        session_req: None,
        weekly_req: None,
        message: text_view(e.message),
    }
}

/// The message shown for an observed reset of the given kind.
pub open spec fn reset_message(kind: Seq<char>) -> Seq<char> {
    if kind == "weekly"@ {
        "每周窗口重置（实测）"@
    } else {
        "5h 窗口重置（实测）"@
    }
}

/// The log row shown for a stored observed reset.
pub open spec fn reset_entry(r: ResetRow) -> LogEntryView {
    LogEntryView {
        ts: r.observed_at@,
        kind: "reset"@,
        session_ppm: None,
        weekly_ppm: None,
        session_req: None,
        weekly_req: None,
        message: Some(reset_message(r.kind@)),
    }
}

/// The sort key of a log row: the bytes of its timestamp text.
pub open spec fn entry_key(e: LogEntryView) -> Seq<u8> {
    text_key(e.ts)
}

/// Row `i` is shown before row `j`: a later timestamp text first, and rows with
/// the same timestamp text in the order they were read.
pub open spec fn shown_before(all: Seq<LogEntryView>, i: int, j: int) -> bool {
    ||| lex_lt(entry_key(all[j]), entry_key(all[i]))
    ||| (entry_key(all[i]) == entry_key(all[j]) && i < j)
}

/// `p` lists positions of `all` in the order they are shown, each at most once.
pub open spec fn ordered_positions(all: Seq<LogEntryView>, p: Seq<usize>) -> bool {
    &&& forall|k: int| 0 <= k < p.len() ==> #[trigger] p[k] < all.len()
    &&& forall|a: int, b: int|
        0 <= a < b < p.len() ==> #[trigger] shown_before(all, p[a] as int, p[b] as int)
}

/// `p` is the display order of all rows of `all`: every position once, newest first,
/// equal timestamps in the order they were read.
pub open spec fn display_order(all: Seq<LogEntryView>, p: Seq<usize>) -> bool {
    &&& p.len() == all.len()
    &&& ordered_positions(all, p)
}

/// In the display order, a row never has an earlier timestamp than a row shown
/// after it, comparing the whole timestamp text byte by byte; rows with the very
/// same timestamp text keep the order in which they were read.
pub proof fn law_log_is_newest_first(all: Seq<LogEntryView>, p: Seq<usize>, a: int, b: int)
    requires
        display_order(all, p),
        0 <= a < b < p.len(),
    ensures
        !lex_lt(text_key(all[p[a] as int].ts), text_key(all[p[b] as int].ts)),
        text_key(all[p[a] as int].ts) == text_key(all[p[b] as int].ts) ==> p[a] < p[b],
{
    assert(shown_before(all, p[a] as int, p[b] as int));
    let ka = text_key(all[p[a] as int].ts);
    let kb = text_key(all[p[b] as int].ts);
    lemma_lex_irreflexive(ka);
    if lex_lt(kb, ka) {
        lemma_lex_asymmetric(kb, ka);
        lemma_lex_irreflexive(kb);
    }
}

/// "Shown before" is transitive.
pub proof fn lemma_shown_before_transitive(all: Seq<LogEntryView>, i: int, j: int, k: int)
    requires
        shown_before(all, i, j),
        shown_before(all, j, k),
    ensures
        shown_before(all, i, k),
{
    let ki = entry_key(all[i]);
    let kj = entry_key(all[j]);
    let kk = entry_key(all[k]);
    if lex_lt(kj, ki) && lex_lt(kk, kj) {
        lemma_lex_transitive(kk, kj, ki);
    }
}

/// "Shown before" never holds of a row and itself.
pub proof fn lemma_shown_before_irreflexive(all: Seq<LogEntryView>, i: int)
    ensures
        !shown_before(all, i, i),
{
    lemma_lex_irreflexive(entry_key(all[i]));
}

/// Decides whether row `i` is shown before row `j`.
fn shows_before(all: &Vec<LogEntry>, i: usize, j: usize) -> (b: bool)
    requires
        i < all.len(),
        j < all.len(),
    ensures
        b == shown_before(all@.map_values(|e: LogEntry| e@), i as int, j as int),
{
    let ghost v = all@.map_values(|e: LogEntry| e@);
    assert(v[i as int] == all@[i as int]@);
    assert(v[j as int] == all@[j as int]@);
    proof {
        lemma_lex_asymmetric(entry_key(v[i as int]), entry_key(v[j as int]));
    }
    match compare_text(&all[i].ts, &all[j].ts) {
        Cmp::Greater => true,
        Cmp::Less => false,
        Cmp::Equal => i < j,
    }
}

/// Merges two ordered runs of positions into one.
fn merge_positions(all: &Vec<LogEntry>, left: Vec<usize>, right: Vec<usize>) -> (out: Vec<usize>)
    requires
        ordered_positions(all@.map_values(|e: LogEntry| e@), left@),
        ordered_positions(all@.map_values(|e: LogEntry| e@), right@),
        forall|a: int, b: int|
            0 <= a < left@.len() && 0 <= b < right@.len() ==> left@[a] != right@[b],
    ensures
        ordered_positions(all@.map_values(|e: LogEntry| e@), out@),
        out@.len() == left@.len() + right@.len(),
        forall|x: usize| out@.contains(x) <==> (left@.contains(x) || right@.contains(x)),
{
    let ghost v = all@.map_values(|e: LogEntry| e@);
    let mut out: Vec<usize> = Vec::new();
    let mut i: usize = 0;
    let mut j: usize = 0;
    while i < left.len() || j < right.len()
        invariant
            v == all@.map_values(|e: LogEntry| e@),
            ordered_positions(v, left@),
            ordered_positions(v, right@),
            ordered_positions(v, out@),
            forall|a: int, b: int|
                0 <= a < left@.len() && 0 <= b < right@.len() ==> left@[a] != right@[b],
            i <= left@.len(),
            j <= right@.len(),
            out@.len() == i + j,
            forall|x: usize|
                out@.contains(x) <==> (left@.subrange(0, i as int).contains(x) || right@.subrange(
                    0,
                    j as int,
                ).contains(x)),
            i < left@.len() ==> forall|a: int|
                0 <= a < out@.len() ==> shown_before(v, out@[a] as int, left@[i as int] as int),
            j < right@.len() ==> forall|a: int|
                0 <= a < out@.len() ==> shown_before(v, out@[a] as int, right@[j as int] as int),
        decreases left@.len() + right@.len() - i - j,
    {
        let take_left = if i < left.len() && j < right.len() {
            shows_before(all, left[i], right[j])
        } else {
            i < left.len()
        };
        let ghost old_out = out@;
        let x = if take_left {
            left[i]
        } else {
            right[j]
        };
        out.push(x);
        proof {
            assert(out@ == old_out.push(x));
            if take_left {
                assert(left@.subrange(0, i + 1) == left@.subrange(0, i as int).push(x));
            } else {
                assert(right@.subrange(0, j + 1) == right@.subrange(0, j as int).push(x));
            }
        }
        if take_left {
            i = i + 1;
        } else {
            j = j + 1;
        }
        proof {
            // The new element comes after everything before it.
            assert forall|a: int, b: int|
                0 <= a < b < out@.len() implies #[trigger] shown_before(
                v,
                out@[a] as int,
                out@[b] as int,
            ) by {
                if b < out@.len() - 1 {
                    assert(out@[a] == old_out[a] && out@[b] == old_out[b]);
                } else {
                    assert(out@[a] == old_out[a]);
                }
            }
            // Everything so far comes before the next heads.
            if i < left@.len() {
                assert forall|a: int|
                    0 <= a < out@.len() implies shown_before(
                    v,
                    out@[a] as int,
                    left@[i as int] as int,
                ) by {
                    if take_left {
                        assert(shown_before(v, left@[i - 1] as int, left@[i as int] as int));
                        if a < out@.len() - 1 {
                            lemma_shown_before_transitive(
                                v,
                                out@[a] as int,
                                left@[i - 1] as int,
                                left@[i as int] as int,
                            );
                        }
                    } else {
                        if a == out@.len() - 1 {
                            // x was the right head and was not before the left head.
                            let l = left@[i as int] as int;
                            let r = x as int;
                            lemma_lex_total_keys(v, l, r);
                        }
                    }
                }
            }
            if j < right@.len() {
                assert forall|a: int|
                    0 <= a < out@.len() implies shown_before(
                    v,
                    out@[a] as int,
                    right@[j as int] as int,
                ) by {
                    if !take_left {
                        assert(shown_before(v, right@[j - 1] as int, right@[j as int] as int));
                        if a < out@.len() - 1 {
                            lemma_shown_before_transitive(
                                v,
                                out@[a] as int,
                                right@[j - 1] as int,
                                right@[j as int] as int,
                            );
                        }
                    }
                }
            }
        }
    }
    assert(left@.subrange(0, i as int) =~= left@);
    assert(right@.subrange(0, j as int) =~= right@);
    out
}

/// Two different rows are always ordered one way or the other.
pub proof fn lemma_lex_total_keys(all: Seq<LogEntryView>, i: int, j: int)
    requires
        i != j,
        !shown_before(all, i, j),
    ensures
        shown_before(all, j, i),
{
    crate::order::lemma_lex_total(entry_key(all[i]), entry_key(all[j]));
}

/// Orders the positions `lo..hi` of `all` for display.
fn sort_positions(all: &Vec<LogEntry>, lo: usize, hi: usize) -> (p: Vec<usize>)
    requires
        lo <= hi <= all@.len(),
    ensures
        ordered_positions(all@.map_values(|e: LogEntry| e@), p@),
        p@.len() == hi - lo,
        forall|x: usize| p@.contains(x) <==> lo <= x < hi,
    decreases hi - lo,
{
    let ghost v = all@.map_values(|e: LogEntry| e@);
    if hi - lo == 0 {
        let p: Vec<usize> = Vec::new();
        p
    } else if hi - lo == 1 {
        let mut p: Vec<usize> = Vec::new();
        p.push(lo);
        proof {
            assert forall|x: usize| p@.contains(x) <==> lo <= x < hi by {
                if p@.contains(x) {
                    let k = choose|k: int| 0 <= k < p@.len() && p@[k] == x;
                    assert(k == 0);
                }
                if lo <= x < hi {
                    assert(p@[0] == x);
                }
            }
        }
        p
    } else {
        let mid = lo + (hi - lo) / 2;
        let left = sort_positions(all, lo, mid);
        let right = sort_positions(all, mid, hi);
        proof {
            assert forall|a: int, b: int|
                0 <= a < left@.len() && 0 <= b < right@.len() implies left@[a] != right@[b] by {
                assert(left@.contains(left@[a]));
                assert(right@.contains(right@[b]));
            }
        }
        let p = merge_positions(all, left, right);
        p
    }
}

/// All log rows before ordering: the successes, then the events, then the resets,
/// each in the order read.
pub open spec fn unordered_log(
    samples: Seq<SampleLogRow>,
    events: Seq<EventRow>,
    resets: Seq<ResetRow>,
) -> Seq<LogEntryView> {
    samples.map_values(|r: SampleLogRow| sample_entry(r)) + events.map_values(
        |e: EventRow| event_entry(e),
    ) + resets.map_values(|r: ResetRow| reset_entry(r))
}

/// The log row for a stored successful reading.
fn sample_log_entry(r: &SampleLogRow) -> (e: LogEntry)
    ensures
        e@ == sample_entry(*r),
{
    let session_req = match &r.session_models {
        Some(m) => total_requests(m),
        None => None,
    };
    let weekly_req = match &r.weekly_models {
        Some(m) => total_requests(m),
        None => None,
    };
    LogEntry {
        ts: r.fetched_at.clone(),
        kind: String::from_str("ok"),
        session_ppm: r.session_ppm,
        weekly_ppm: r.weekly_ppm,
        session_req,
        weekly_req,
        message: duplicate_text(&r.server_time),
    }
}

/// The log row for a stored event.
fn event_log_entry(e: &EventRow) -> (r: LogEntry)
    ensures
        r@ == event_entry(*e),
{
    LogEntry {
        ts: e.ts.clone(),
        kind: e.kind.clone(),
        session_ppm: None,
        weekly_ppm: None,
        session_req: None,
        weekly_req: None,
        message: duplicate_text(&e.message),
    }
}

/// The log row for a stored observed reset.
fn reset_log_entry(r: &ResetRow) -> (e: LogEntry)
    ensures
        e@ == reset_entry(*r),
{
    let weekly = String::from_str("weekly");
    let message = if r.kind == weekly {
        String::from_str("每周窗口重置（实测）")
    } else {
        String::from_str("5h 窗口重置（实测）")
    };
    LogEntry {
        ts: r.observed_at.clone(),
        kind: String::from_str("reset"),
        session_ppm: None,
        weekly_ppm: None,
        session_req: None,
        weekly_req: None,
        message: Some(message),
    }
}

/// The detail log of one key: successes, failures and observed resets merged,
/// newest first (rows with the same timestamp text keep the order successes,
/// events, resets, and within each their order as read), cut to `limit` rows.
pub fn merge_log_rows(
    samples: &Vec<SampleLogRow>,
    events: &Vec<EventRow>,
    resets: &Vec<ResetRow>,
    limit: usize,
) -> (out: Vec<LogEntry>)
    ensures
        exists|p: Seq<usize>|
            #![trigger display_order(unordered_log(samples@, events@, resets@), p)]
            {
                let all = unordered_log(samples@, events@, resets@);
                &&& display_order(all, p)
                &&& out@.len() == (if limit < all.len() {
                    limit as int
                } else {
                    all.len() as int
                })
                &&& forall|k: int| 0 <= k < out@.len() ==> (#[trigger] out@[k])@ == all[p[k] as int]
            },
        forall|a: int, b: int|
            0 <= a < b < out@.len() ==> !lex_lt(
                text_key((#[trigger] out@[a]).ts@),
                text_key((#[trigger] out@[b]).ts@),
            ),
        out@.len() == (if limit < samples@.len() + events@.len() + resets@.len() {
            limit as int
        } else {
            (samples@.len() + events@.len() + resets@.len()) as int
        }),
{
    let ghost target = unordered_log(samples@, events@, resets@);
    let ghost sv = samples@.map_values(|r: SampleLogRow| sample_entry(r));
    let ghost ev = events@.map_values(|e: EventRow| event_entry(e));
    let ghost rv = resets@.map_values(|r: ResetRow| reset_entry(r));
    let mut all: Vec<LogEntry> = Vec::new();
    let mut i: usize = 0;
    while i < samples.len()
        invariant
            i <= samples@.len(),
            sv == samples@.map_values(|r: SampleLogRow| sample_entry(r)),
            all@.map_values(|e: LogEntry| e@) =~= sv.subrange(0, i as int),
        decreases samples@.len() - i,
    {
        let ghost before = all@;
        let e = sample_log_entry(&samples[i]);
        all.push(e);
        proof {
            assert(all@ == before.push(e));
            assert(all@.map_values(|e: LogEntry| e@) =~= before.map_values(|e: LogEntry| e@).push(
                e@,
            ));
            assert(sv[i as int] == e@);
            assert(sv.subrange(0, i + 1) =~= sv.subrange(0, i as int).push(e@));
        }
        i = i + 1;
    }
    let mut i: usize = 0;
    while i < events.len()
        invariant
            i <= events@.len(),
            sv.len() == samples@.len(),
            ev == events@.map_values(|e: EventRow| event_entry(e)),
            all@.map_values(|e: LogEntry| e@) =~= sv + ev.subrange(0, i as int),
        decreases events@.len() - i,
    {
        let ghost before = all@;
        let e = event_log_entry(&events[i]);
        all.push(e);
        proof {
            assert(all@ == before.push(e));
            assert(all@.map_values(|e: LogEntry| e@) =~= before.map_values(|e: LogEntry| e@).push(
                e@,
            ));
            assert(ev[i as int] == e@);
            assert(ev.subrange(0, i + 1) =~= ev.subrange(0, i as int).push(e@));
        }
        i = i + 1;
    }
    let mut i: usize = 0;
    while i < resets.len()
        invariant
            i <= resets@.len(),
            rv == resets@.map_values(|r: ResetRow| reset_entry(r)),
            ev.len() == events@.len(),
            all@.map_values(|e: LogEntry| e@) =~= sv + ev + rv.subrange(0, i as int),
        decreases resets@.len() - i,
    {
        let ghost before = all@;
        let e = reset_log_entry(&resets[i]);
        all.push(e);
        proof {
            assert(all@ == before.push(e));
            assert(all@.map_values(|e: LogEntry| e@) =~= before.map_values(|e: LogEntry| e@).push(
                e@,
            ));
            assert(rv[i as int] == e@);
            assert(rv.subrange(0, i + 1) =~= rv.subrange(0, i as int).push(e@));
        }
        i = i + 1;
    }
    assert(rv.subrange(0, i as int) =~= rv);
    assert(all@.map_values(|e: LogEntry| e@) =~= target);
    let n = all.len();
    let p = sort_positions(&all, 0, n);
    let m = if limit < n {
        limit
    } else {
        n
    };
    let mut out: Vec<LogEntry> = Vec::new();
    let mut k: usize = 0;
    while k < m
        invariant
            m <= n == all@.len() == p@.len(),
            k <= m,
            forall|q: int| 0 <= q < p@.len() ==> #[trigger] p@[q] < n,
            target == all@.map_values(|e: LogEntry| e@),
            out@.len() == k,
            forall|q: int| 0 <= q < k ==> (#[trigger] out@[q])@ == target[p@[q] as int],
        decreases m - k,
    {
        out.push(all[p[k]].duplicate());
        k = k + 1;
    }
    assert(display_order(target, p@));
    proof {
        assert forall|a: int, b: int|
            0 <= a < b < out@.len() implies !lex_lt(
            text_key((#[trigger] out@[a]).ts@),
            text_key((#[trigger] out@[b]).ts@),
        ) by {
            law_log_is_newest_first(target, p@, a, b);
            assert(out@[a]@ == target[p@[a] as int]);
            assert(out@[b]@ == target[p@[b] as int]);
        }
    }
    out
}

/// One successful reading as it is stored (shares in millionths of the window).
#[derive(Debug)]
pub struct SampleRow {
    pub alias: String,
    pub fetched_at: String,
    pub session_ppm: i64,
    pub weekly_ppm: i64,
    pub session_models: Vec<ModelStat>,
    pub weekly_models: Vec<ModelStat>,
    pub server_time: Option<String>,
}

impl From<SampleRow> for Sample {
    fn from(r: SampleRow) -> (s: Sample) {
        Sample {
            ts: r.fetched_at,
            session_ppm: r.session_ppm,
            weekly_ppm: r.weekly_ppm,
            session_models: r.session_models,
        }
    }
}

impl vstd::std_specs::convert::FromSpecImpl<SampleRow> for Sample {
    open spec fn obeys_from_spec() -> bool {
        true
    }

    open spec fn from_spec(r: SampleRow) -> Sample {
        Sample {
            ts: r.fetched_at,
            session_ppm: r.session_ppm,
            weekly_ppm: r.weekly_ppm,
            session_models: r.session_models,
        }
    }
}

/// A write for the single store writer.
#[derive(Debug)]
pub enum StoreMsg {
    Sample(SampleRow),
    ResetEvent { alias: String, observed_at: String, kind: String },
    /// A failure or another sparse event.
    Event { alias: String, ts: String, kind: String, message: String },
    /// Drop samples and events older than this many days.
    Cleanup { days: i64 },
    /// Nothing to write; only tells the writer that the state changed.
    StateDirty,
}

} // verus!
