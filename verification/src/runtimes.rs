use crate::calendar::{time_string, time_text, valid_time, valid_timestamp, UtcTime};
use crate::ollama::{FetchError, RawUsage};
use crate::order::{
    compare_text, lemma_lex_irreflexive, lemma_lex_transitive,
    lemma_text_key_injective, lex_lt, text_key, Cmp,
};
use crate::reset::{session_reset_of, weekly_reset_of};
use crate::state::{
    failure_step, is_shown_snapshot, runtime_wf, session_dropped, success_step, KeyRuntime,
    ResetKind, RuntimeView,
};
use crate::store::{SampleRow, StoreMsg};
use crate::types::{AppState, KeyState};
use vstd::prelude::*;

verus! {

/// The live state of every configured key, ordered by alias.
pub struct RuntimeTable {
    entries: Vec<KeyRuntime>,
}

impl View for RuntimeTable {
    type V = Seq<RuntimeView>;

    closed spec fn view(&self) -> Seq<RuntimeView> {
        entries_view(self.entries@)
    }
}

/// The states of a list of key runtimes.
spec fn entries_view(v: Seq<KeyRuntime>) -> Seq<RuntimeView> {
    v.map_values(|r: KeyRuntime| r@)
}

/// The alias key of a key state.
pub open spec fn alias_key(r: RuntimeView) -> Seq<u8> {
    text_key(r.alias@)
}

/// Every key state is well formed and the aliases strictly increase, so no alias
/// occurs twice.
pub open spec fn table_wf(s: Seq<RuntimeView>) -> bool {
    &&& forall|i: int| 0 <= i < s.len() ==> runtime_wf(#[trigger] s[i])
    &&& forall|i: int, j: int|
        0 <= i < j < s.len() ==> lex_lt(alias_key(#[trigger] s[i]), alias_key(#[trigger] s[j]))
}

/// The table holds a key state under `alias`.
pub open spec fn has_alias(s: Seq<RuntimeView>, alias: Seq<char>) -> bool {
    exists|i: int| 0 <= i < s.len() && (#[trigger] s[i]).alias@ == alias
}

impl RuntimeTable {
    /// An empty table.
    pub fn new() -> (t: RuntimeTable)
        ensures
            t@ == Seq::<RuntimeView>::empty(),
            table_wf(t@),
    {
        let t = RuntimeTable { entries: Vec::new() };
        assert(t@ =~= Seq::<RuntimeView>::empty());
        t
    }

    /// The table is always well formed.
    #[verifier::type_invariant]
    spec fn well_formed(self) -> bool {
        table_wf(self@)
    }

    /// Moves the entries out, leaving an empty table behind.
    fn take_entries(&mut self) -> (v: Vec<KeyRuntime>)
        ensures
            entries_view(v@) == old(self)@,
            final(self)@ == Seq::<RuntimeView>::empty(),
    {
        let mut v: Vec<KeyRuntime> = Vec::new();
        std::mem::swap(&mut v, &mut self.entries);
        assert(entries_view(self.entries@) =~= Seq::<RuntimeView>::empty());
        v
    }

    /// Puts well-formed entries back.
    fn put_entries(&mut self, v: Vec<KeyRuntime>)
        requires
            table_wf(entries_view(v@)),
        ensures
            final(self)@ == entries_view(v@),
    {
        self.entries = v;
    }

    /// Number of keys.
    pub fn len(&self) -> (n: usize)
        ensures
            n == self@.len(),
    {
        self.entries.len()
    }

    /// Where `alias` is, or where it would go.
    fn locate(&self, alias: &String) -> (r: (bool, usize))
        requires
            table_wf(self@),
        ensures
            r.1 <= self@.len(),
            r.0 ==> r.1 < self@.len() && self@[r.1 as int].alias@ == alias@,
            !r.0 ==> forall|i: int|
                0 <= i < r.1 ==> lex_lt(alias_key(#[trigger] self@[i]), text_key(alias@)),
            !r.0 ==> forall|i: int|
                r.1 <= i < self@.len() ==> lex_lt(text_key(alias@), alias_key(#[trigger] self@[i])),
    {
        let n = self.entries.len();
        let mut i: usize = 0;
        while i < n
            invariant
                n == self@.len() == self.entries@.len(),
                table_wf(self@),
                i <= n,
                forall|k: int| 0 <= k < i ==> lex_lt(alias_key(#[trigger] self@[k]), text_key(alias@)),
            decreases n - i,
        {
            assert(self@[i as int] == self.entries@[i as int]@);
            match compare_text(self.entries[i].alias(), alias) {
                Cmp::Less => {},
                Cmp::Equal => {
                    proof {
                        lemma_text_key_injective(self@[i as int].alias@, alias@);
                    }
                    return (true, i);
                },
                Cmp::Greater => {
                    proof {
                        assert forall|k: int| i <= k < self@.len() implies lex_lt(
                            text_key(alias@),
                            alias_key(#[trigger] self@[k]),
                        ) by {
                            if k > i {
                                lemma_lex_transitive(
                                    text_key(alias@),
                                    alias_key(self@[i as int]),
                                    alias_key(self@[k]),
                                );
                            }
                        }
                    }
                    return (false, i);
                },
            }
            i = i + 1;
        }
        (false, i)
    }

    /// The position of the key state for `alias`, if there is one.
    pub fn position(&self, alias: &String) -> (r: Option<usize>)
        ensures
            table_wf(self@),
            r matches Some(i) ==> i < self@.len() && self@[i as int].alias@ == alias@,
            r is None ==> !has_alias(self@, alias@),
    {
        proof {
            use_type_invariant(self);
        }
        let (found, i) = self.locate(alias);
        if found {
            Some(i)
        } else {
            proof {
                if has_alias(self@, alias@) {
                    let k = choose|k: int| 0 <= k < self@.len() && (#[trigger] self@[k]).alias@ == alias@;
                    if k < i {
                        lemma_lex_irreflexive(text_key(alias@));
                    } else {
                        lemma_lex_irreflexive(text_key(alias@));
                    }
                }
            }
            None
        }
    }

    /// Adds the key state, replacing the one with the same alias.
    pub fn insert(&mut self, rt: KeyRuntime)
        requires
            runtime_wf(rt@),
        ensures
            table_wf(final(self)@),
            inserted(old(self)@, rt@, final(self)@),
    {
        proof {
            use_type_invariant(&*self);
        }
        let ghost old_view = self@;
        let ghost new_view = rt@;
        let (found, i) = self.locate(rt.alias());
        let mut entries = self.take_entries();
        if found {
            entries.remove(i);
            entries.insert(i, rt);
            proof {
                assert(entries_view(entries@) =~= old_view.update(i as int, new_view));
                let key = alias_key(new_view);
                assert(key == alias_key(old_view[i as int]));
                assert forall|a: int, b: int|
                    0 <= a < b < entries_view(entries@).len() implies lex_lt(
                    alias_key(#[trigger] entries_view(entries@)[a]),
                    alias_key(#[trigger] entries_view(entries@)[b]),
                ) by {
                    assert(old_view.len() == entries_view(entries@).len());
                    assert(lex_lt(alias_key(old_view[a]), alias_key(old_view[b])));
                }
                assert forall|k: int|
                    0 <= k < old_view.len() && (#[trigger] old_view[k]).alias@ == new_view.alias@
                        implies k == i by {
                    if k != i {
                        if k < i {
                            assert(lex_lt(alias_key(old_view[k]), alias_key(old_view[i as int])));
                        } else {
                            assert(lex_lt(alias_key(old_view[i as int]), alias_key(old_view[k])));
                        }
                        lemma_lex_irreflexive(key);
                    }
                }
            }
            self.put_entries(entries);
        } else {
            entries.insert(i, rt);
            proof {
                assert(entries_view(entries@) =~= old_view.insert(i as int, new_view));
                assert forall|a: int, b: int|
                    0 <= a < b < entries_view(entries@).len() implies lex_lt(
                    alias_key(#[trigger] entries_view(entries@)[a]),
                    alias_key(#[trigger] entries_view(entries@)[b]),
                ) by {
                    if b < i {
                        assert(entries_view(entries@)[a] == old_view[a] && entries_view(entries@)[b] == old_view[b]);
                    } else if b == i {
                        assert(entries_view(entries@)[a] == old_view[a]);
                    } else if a < i {
                        assert(entries_view(entries@)[a] == old_view[a] && entries_view(entries@)[b] == old_view[b - 1]);
                        lemma_lex_transitive(
                            alias_key(old_view[a]),
                            text_key(new_view.alias@),
                            alias_key(old_view[b - 1]),
                        );
                    } else if a == i {
                        assert(entries_view(entries@)[b] == old_view[b - 1]);
                    } else {
                        assert(entries_view(entries@)[a] == old_view[a - 1] && entries_view(entries@)[b] == old_view[b - 1]);
                    }
                }
                assert forall|k: int| 0 <= k < entries_view(entries@).len() implies runtime_wf(#[trigger] entries_view(entries@)[k]) by {
                    if k < i {
                        assert(entries_view(entries@)[k] == old_view[k]);
                    } else if k > i {
                        assert(entries_view(entries@)[k] == old_view[k - 1]);
                    }
                }
                assert forall|k: int|
                    0 <= k < old_view.len() implies (#[trigger] old_view[k]).alias@ != new_view.alias@ by {
                    if old_view[k].alias@ == new_view.alias@ {
                        lemma_lex_irreflexive(text_key(new_view.alias@));
                    }
                }
            }
            self.put_entries(entries);
        }
    }

    /// Drops the key state for `alias`, if there is one.
    pub fn remove(&mut self, alias: &String)
        ensures
            table_wf(final(self)@),
            removed(old(self)@, alias@, final(self)@),
    {
        proof {
            use_type_invariant(&*self);
        }
        let ghost old_view = self@;
        let (found, i) = self.locate(alias);
        if found {
            let mut entries = self.take_entries();
            entries.remove(i);
            proof {
                assert(entries_view(entries@) =~= old_view.remove(i as int));
                assert forall|a: int, b: int|
                    0 <= a < b < entries_view(entries@).len() implies lex_lt(
                    alias_key(#[trigger] entries_view(entries@)[a]),
                    alias_key(#[trigger] entries_view(entries@)[b]),
                ) by {
                    if b < i {
                        assert(entries_view(entries@)[a] == old_view[a] && entries_view(entries@)[b] == old_view[b]);
                    } else if a < i {
                        assert(entries_view(entries@)[a] == old_view[a] && entries_view(entries@)[b] == old_view[b + 1]);
                    } else {
                        assert(entries_view(entries@)[a] == old_view[a + 1] && entries_view(entries@)[b] == old_view[b + 1]);
                    }
                }
                assert forall|k: int| 0 <= k < entries_view(entries@).len() implies runtime_wf(#[trigger] entries_view(entries@)[k]) by {
                    if k < i {
                        assert(entries_view(entries@)[k] == old_view[k]);
                    } else {
                        assert(entries_view(entries@)[k] == old_view[k + 1]);
                    }
                }
                assert forall|k: int|
                    0 <= k < old_view.len() && (#[trigger] old_view[k]).alias@ == alias@ implies k
                    == i by {
                    if k != i {
                        if k < i {
                            assert(lex_lt(alias_key(old_view[k]), alias_key(old_view[i as int])));
                        } else {
                            assert(lex_lt(alias_key(old_view[i as int]), alias_key(old_view[k])));
                        }
                        lemma_lex_irreflexive(text_key(alias@));
                    }
                }
            }
            self.put_entries(entries);
        } else {
            proof {
                assert forall|k: int|
                    0 <= k < old_view.len() implies (#[trigger] old_view[k]).alias@ != alias@ by {
                    if old_view[k].alias@ == alias@ {
                        lemma_lex_irreflexive(text_key(alias@));
                    }
                }
            }
        }
    }

    /// Applies the result of one reading to the key `alias` at `now` and returns
    /// whether it succeeded together with the writes for the store: an observed
    /// reset (when the session share fell sharply) and the sample. A failure
    /// updates the failure state and asks only for a state-changed notice, so that
    /// every completed reading is announced. An unknown alias changes nothing.
    pub fn record_fetch(
        &mut self,
        alias: &String,
        result: Result<RawUsage, FetchError>,
        now: UtcTime,
    ) -> (r: (bool, Vec<StoreMsg>))
        requires
            valid_time(now),
            valid_timestamp(session_reset_of(now.secs as int)),
            valid_timestamp(weekly_reset_of(now.secs as int)),
        ensures
            table_wf(final(self)@),
            !has_alias(old(self)@, alias@) ==> !r.0 && r.1@.len() == 0 && final(self)@ == old(
                self,
            )@,
            forall|i: int|
                0 <= i < old(self)@.len() && (#[trigger] old(self)@[i]).alias@ == alias@ ==> {
                    &&& final(self)@.len() == old(self)@.len()
                    &&& forall|k: int|
                        0 <= k < old(self)@.len() && k != i ==> final(self)@[k] == old(self)@[k]
                    &&& fetch_recorded(old(self)@[i], final(self)@[i], alias@, result, now, r.0, r.1@)
                },
            has_alias(old(self)@, alias@) && result is Ok ==> r.0 && r.1@.len() >= 1 && (r.1@.last() matches StoreMsg::Sample(row) && {
                &&& row.session_models@ == result->Ok_0.session_models@
                &&& row.weekly_models@ == result->Ok_0.weekly_models@
                &&& row.session_ppm == result->Ok_0.session_ppm as i64
                &&& row.weekly_ppm == result->Ok_0.weekly_ppm as i64
                &&& row.server_time == result->Ok_0.server_time
            }),
            has_alias(old(self)@, alias@) && result is Err ==> !r.0 && r.1@.len() == 1
                && r.1@[0] is StateDirty,
    {
        proof {
            use_type_invariant(&*self);
        }
        let ghost old_view = self@;
        let pos = self.position(alias);
        match pos {
            None => (false, Vec::new()),
            Some(i) => {
                proof {
                    assert forall|k: int|
                        0 <= k < old_view.len() && (#[trigger] old_view[k]).alias@ == alias@
                            implies k == i by {
                        if k != i {
                            if k < i {
                                assert(lex_lt(alias_key(old_view[k]), alias_key(old_view[i as int])));
                            } else {
                                assert(lex_lt(alias_key(old_view[i as int]), alias_key(old_view[k])));
                            }
                            lemma_lex_irreflexive(text_key(alias@));
                        }
                    }
                }
                let mut entries = self.take_entries();
                assert(entries_view(entries@)[i as int] == entries@[i as int]@);
                let mut rt = entries.remove(i);
                assert(rt@ == old_view[i as int]);
                let mut msgs: Vec<StoreMsg> = Vec::new();
                let ok = match result {
                    Ok(raw) => {
                        let ev = rt.apply_success(raw.duplicate(), now);
                        match ev {
                            Some(e) => {
                                let kind = match e.kind {
                                    ResetKind::Session => String::from_str("session"),
                                    ResetKind::Weekly => String::from_str("weekly"),
                                };
                                msgs.push(
                                    StoreMsg::ResetEvent {
                                        alias: alias.clone(),
                                        observed_at: time_string(e.observed_at),
                                        kind,
                                    },
                                );
                            },
                            None => {},
                        }
                        msgs.push(
                            StoreMsg::Sample(
                                SampleRow {
                                    alias: alias.clone(),
                                    fetched_at: time_string(now),
                                    session_ppm: raw.session_ppm as i64,
                                    weekly_ppm: raw.weekly_ppm as i64,
                                    session_models: raw.session_models,
                                    weekly_models: raw.weekly_models,
                                    server_time: raw.server_time,
                                },
                            ),
                        );
                        true
                    },
                    Err(e) => {
                        rt.apply_failure(e, now);
                        msgs.push(StoreMsg::StateDirty);
                        false
                    },
                };
                entries.insert(i, rt);
                proof {
                    let cur = entries_view(entries@);
                    assert(cur =~= old_view.update(i as int, rt@));
                    assert forall|a: int, b: int|
                        0 <= a < b < cur.len() implies lex_lt(
                        alias_key(#[trigger] cur[a]),
                        alias_key(#[trigger] cur[b]),
                    ) by {
                        assert(lex_lt(alias_key(old_view[a]), alias_key(old_view[b])));
                    }
                }
                self.put_entries(entries);
                proof {
                    law_sample_is_the_reading(
                        old_view[i as int],
                        self@[i as int],
                        alias@,
                        result,
                        now,
                        ok,
                        msgs@,
                    );
                }
                (ok, msgs)
            },
        }
    }
}

/// Builds the dashboard state: each key's snapshot at `now` in alias order,
/// stamped with `generated_now`. Each key keeps the snapshot it showed.
pub fn build_state(runtime: &mut RuntimeTable, now: UtcTime, generated_now: UtcTime) -> (st: AppState)
    requires
        valid_time(now),
        valid_time(generated_now),
    ensures
        table_wf(final(runtime)@),
        final(runtime)@.len() == old(runtime)@.len(),
        st.keys@.len() == old(runtime)@.len(),
        st.generated_at@ == time_text(generated_now),
        forall|i: int|
            0 <= i < old(runtime)@.len() ==> shown_key(
                #[trigger] st.keys@[i],
                old(runtime)@[i],
                final(runtime)@[i],
                now,
            ),
        forall|i: int, j: int|
            0 <= i < j < st.keys@.len() ==> lex_lt(
                text_key((#[trigger] st.keys@[i]).alias@),
                text_key((#[trigger] st.keys@[j]).alias@),
            ),
{
    proof {
        use_type_invariant(&*runtime);
    }
    let ghost old_view = runtime@;
    let mut entries = runtime.take_entries();
    let n = entries.len();
    let mut keys: Vec<KeyState> = Vec::new();
    let mut i: usize = 0;
    while i < n
        invariant
            n == old_view.len() == entries_view(entries@).len() == entries@.len(),
            table_wf(old_view),
            valid_time(now),
            i <= n,
            keys@.len() == i,
            forall|k: int| 0 <= k < i ==> shown_key(#[trigger] keys@[k], old_view[k], entries_view(entries@)[k], now),
            forall|k: int| i <= k < n ==> #[trigger] entries_view(entries@)[k] == old_view[k],
        decreases n - i,
    {
        let ghost before = entries_view(entries@);
        assert(entries_view(entries@)[i as int] == entries@[i as int]@);
        let mut rt = entries.remove(i);
        assert(rt@ == old_view[i as int]);
        let snap = rt.build_snapshot(now);
        let alias = rt.alias().clone();
        let ghost snap_view = snap@;
        keys.push(KeyState { alias, snapshot: Some(snap) });
        entries.insert(i, rt);
        proof {
            assert(entries_view(entries@) =~= before.update(i as int, rt@));
            assert(shown_key(keys@[i as int], old_view[i as int], entries_view(entries@)[i as int], now));
        }
        i = i + 1;
    }
    proof {
        assert forall|a: int, b: int|
            0 <= a < b < entries_view(entries@).len() implies lex_lt(
            alias_key(#[trigger] entries_view(entries@)[a]),
            alias_key(#[trigger] entries_view(entries@)[b]),
        ) by {
            assert(shown_key(keys@[a], old_view[a], entries_view(entries@)[a], now));
            assert(shown_key(keys@[b], old_view[b], entries_view(entries@)[b], now));
        }
        assert forall|a: int, b: int|
            0 <= a < b < keys@.len() implies lex_lt(
            text_key((#[trigger] keys@[a]).alias@),
            text_key((#[trigger] keys@[b]).alias@),
        ) by {
            assert(shown_key(keys@[a], old_view[a], entries_view(entries@)[a], now));
            assert(shown_key(keys@[b], old_view[b], entries_view(entries@)[b], now));
        }
        assert forall|k: int| 0 <= k < entries_view(entries@).len() implies runtime_wf(#[trigger] entries_view(entries@)[k]) by {
            assert(shown_key(keys@[k], old_view[k], entries_view(entries@)[k], now));
        }
    }
    runtime.put_entries(entries);
    AppState { keys, generated_at: time_string(generated_now) }
}


/// `post` is `pre` with `rt` put in place of the state with the same alias, or
/// added at some position when there was none.
pub open spec fn inserted(pre: Seq<RuntimeView>, rt: RuntimeView, post: Seq<RuntimeView>) -> bool {
    &&& forall|i: int|
        0 <= i < pre.len() && (#[trigger] pre[i]).alias@ == rt.alias@ ==> post == pre.update(i, rt)
    &&& !has_alias(pre, rt.alias@) ==> exists|p: int| 0 <= p <= pre.len() && post == pre.insert(p, rt)
}

/// `post` is `pre` without the state for `alias` (unchanged when there is none).
pub open spec fn removed(pre: Seq<RuntimeView>, alias: Seq<char>, post: Seq<RuntimeView>) -> bool {
    &&& forall|i: int|
        0 <= i < pre.len() && (#[trigger] pre[i]).alias@ == alias ==> post == pre.remove(i)
    &&& !has_alias(pre, alias) ==> post == pre
}

/// After an insert, the table holds the new state under its alias, and nothing else changed
/// for other aliases.
pub proof fn law_insert_lists_key(pre: Seq<RuntimeView>, rt: RuntimeView, post: Seq<RuntimeView>)
    requires
        inserted(pre, rt, post),
    ensures
        exists|i: int| 0 <= i < post.len() && post[i] == rt,
        forall|i: int|
            0 <= i < pre.len() && (#[trigger] pre[i]).alias@ != rt.alias@ ==> exists|j: int|
                0 <= j < post.len() && post[j] == pre[i],
{
    if has_alias(pre, rt.alias@) {
        let i = choose|i: int| 0 <= i < pre.len() && (#[trigger] pre[i]).alias@ == rt.alias@;
        assert(post[i] == rt);
        assert forall|k: int|
            0 <= k < pre.len() && (#[trigger] pre[k]).alias@ != rt.alias@ implies exists|j: int|
                0 <= j < post.len() && post[j] == pre[k] by {
            assert(post[k] == pre[k]);
        }
    } else {
        let p = choose|p: int| 0 <= p <= pre.len() && post == pre.insert(p, rt);
        assert(post[p] == rt);
        assert forall|k: int|
            0 <= k < pre.len() && (#[trigger] pre[k]).alias@ != rt.alias@ implies exists|j: int|
                0 <= j < post.len() && post[j] == pre[k] by {
            if k < p {
                assert(post[k] == pre[k]);
            } else {
                assert(post[k + 1] == pre[k]);
            }
        }
    }
}

/// After a remove, no state for the alias is left.
pub proof fn law_remove_forgets_key(pre: Seq<RuntimeView>, alias: Seq<char>, post: Seq<RuntimeView>)
    requires
        table_wf(pre),
        removed(pre, alias, post),
    ensures
        !has_alias(post, alias),
{
    if has_alias(pre, alias) {
        let i = choose|i: int| 0 <= i < pre.len() && (#[trigger] pre[i]).alias@ == alias;
        if has_alias(post, alias) {
            let j = choose|j: int| 0 <= j < post.len() && (#[trigger] post[j]).alias@ == alias;
            let k = if j < i {
                j
            } else {
                j + 1
            };
            assert(post[j] == pre[k]);
            if k < i {
                assert(lex_lt(alias_key(pre[k]), alias_key(pre[i])));
            } else {
                assert(lex_lt(alias_key(pre[i]), alias_key(pre[k])));
            }
            lemma_lex_irreflexive(text_key(alias));
        }
    }
}

/// Removing an alias just inserted for the first time gives back the table as it was.
pub proof fn law_insert_then_remove(
    pre: Seq<RuntimeView>,
    rt: RuntimeView,
    mid: Seq<RuntimeView>,
    post: Seq<RuntimeView>,
)
    requires
        !has_alias(pre, rt.alias@),
        inserted(pre, rt, mid),
        table_wf(mid),
        removed(mid, rt.alias@, post),
    ensures
        post == pre,
{
    let p = choose|p: int| 0 <= p <= pre.len() && mid == pre.insert(p, rt);
    assert(mid[p] == rt);
    assert(post == mid.remove(p));
    assert(mid.remove(p) =~= pre);
}

/// `k` is what the dashboard shows for the key state `before` at `now`, and
/// `after` is that state once it remembers the shown snapshot.
pub open spec fn shown_key(k: KeyState, before: RuntimeView, after: RuntimeView, now: UtcTime) -> bool {
    &&& k.alias == before.alias
    &&& k.snapshot matches Some(s) && is_shown_snapshot(s@, before, now) && after == (RuntimeView {
        last_snapshot: Some(s@),
        ..before
    })
    &&& runtime_wf(after)
}

/// A successful reading asks the store to write, last, the sample of exactly that
/// reading: the key's alias, the reading time, both shares, both model lists (the
/// session list as the session list, the weekly list as the weekly list) and the
/// server time, unchanged. A failed reading asks only for a state-changed notice.
pub proof fn law_sample_is_the_reading(
    pre: RuntimeView,
    post: RuntimeView,
    alias: Seq<char>,
    result: Result<RawUsage, FetchError>,
    now: UtcTime,
    ok: bool,
    msgs: Seq<StoreMsg>,
)
    requires
        fetch_recorded(pre, post, alias, result, now, ok, msgs),
    ensures
        result matches Ok(raw) ==> {
            &&& ok
            &&& msgs.len() >= 1
            &&& msgs.last() matches StoreMsg::Sample(row) && {
                &&& alias == row.alias@
                &&& time_text(now) == row.fetched_at@
                &&& raw.session_ppm as i64 == row.session_ppm
                &&& raw.weekly_ppm as i64 == row.weekly_ppm
                &&& raw.session_models@ == row.session_models@
                &&& raw.weekly_models@ == row.weekly_models@
                &&& raw.server_time == row.server_time
            }
        },
        result is Err ==> !ok && msgs.len() == 1 && msgs[0] is StateDirty,
{
}

/// The store write for the sample of a successful reading.
pub open spec fn is_sample_msg(m: StoreMsg, alias: Seq<char>, raw: RawUsage, now: UtcTime) -> bool {
    m matches StoreMsg::Sample(row) && {
        &&& row.alias@ == alias
        &&& row.fetched_at@ == time_text(now)
        &&& row.session_ppm == raw.session_ppm as i64
        &&& row.weekly_ppm == raw.weekly_ppm as i64
        &&& row.session_models@ == raw.session_models@
        &&& row.weekly_models@ == raw.weekly_models@
        &&& row.server_time == raw.server_time
    }
}

/// The store write for a session reset observed at `now`.
pub open spec fn is_session_reset_msg(m: StoreMsg, alias: Seq<char>, now: UtcTime) -> bool {
    m matches StoreMsg::ResetEvent { alias: a, observed_at: o, kind: k } && a@ == alias && o@
        == time_text(now) && k@ == "session"@
}

/// What one reading does to the key state and which store writes it asks for.
pub open spec fn fetch_recorded(
    pre: RuntimeView,
    post: RuntimeView,
    alias: Seq<char>,
    result: Result<RawUsage, FetchError>,
    now: UtcTime,
    ok: bool,
    msgs: Seq<StoreMsg>,
) -> bool {
    match result {
        Ok(raw) => {
            &&& ok
            &&& success_step(pre, raw, now, post)
            &&& if session_dropped(pre.prev_session_ppm, raw.session_ppm) {
                &&& msgs.len() == 2
                &&& is_session_reset_msg(msgs[0], alias, now)
                &&& is_sample_msg(msgs[1], alias, raw, now)
            } else {
                &&& msgs.len() == 1
                &&& is_sample_msg(msgs[0], alias, raw, now)
            }
        },
        Err(e) => {
            &&& !ok
            &&& post == failure_step(pre, e, now)
            &&& msgs.len() == 1
            &&& msgs[0] matches StoreMsg::StateDirty
        },
    }
}

} // verus!
