//! A handle on one running trace that finishes it at most once, and the listing of recent traces
//! for the debug panel.
use vstd::prelude::*;
use crate::llm_trace::{TraceEntry, TraceUsage, opt_str_view, opt_string_view};
use crate::trace_registry::{
    TraceRegistry, trace_index, is_finalized, in_scope_entries, scoped_traces, newest_first_order,
    newest_first, scoped_trace_entries, entry_in_scope, is_newest_first, lemma_newest_first_sorted,
};

verus! {

/// `after` is `before` once the trace `trace_id` was taken out and finished with the given
/// outcome; `r` is the finished entry, or `None` when no such trace was running.
pub open spec fn finished_in(
    before: TraceRegistry,
    after: TraceRegistry,
    trace_id: Seq<char>,
    r: Option<TraceEntry>,
    status: Seq<char>,
    error: Option<String>,
    snapshot: Option<Seq<char>>,
    usage: Option<TraceUsage>,
    provider: Option<Seq<char>>,
    model: Option<Seq<char>>,
    response_id: Option<Seq<char>>,
    now: i64,
) -> bool {
    &&& after.wf()
    &&& after.latest_main == before.latest_main
    &&& r is Some == (trace_id.len() > 0 && trace_index(before.entries@, trace_id) >= 0)
    &&& r is None ==> after.entries@ == before.entries@
    &&& r is Some ==> trace_index(after.entries@, trace_id) < 0
    &&& r matches Some(e) ==> ({
        let i = trace_index(before.entries@, trace_id);
        &&& after.entries@ == before.entries@.remove(i)
        &&& is_finalized(
            before.entries@[i],
            e,
            status,
            error,
            snapshot,
            usage,
            provider,
            model,
            response_id,
            now,
        )
    })
}

/// The error recorded when a guard is let go without an explicit outcome.
pub open spec fn abandoned_error() -> Seq<char> {
    "调用流程提前结束（未显式标记完成）"@
}

/// One call on a guard: afterwards the guard holds no trace; if it held one, that trace was
/// finished with the given status and error text (whatever else the call passed on), else the
/// call returned nothing and left the registry as it was.
pub open spec fn guard_step(
    before_id: Option<String>,
    after_id: Option<String>,
    before: TraceRegistry,
    after: TraceRegistry,
    r: Option<TraceEntry>,
    status: Seq<char>,
    error_text: Option<Seq<char>>,
) -> bool {
    &&& after_id is None
    &&& match before_id {
        Some(id) => exists|
            error: Option<String>,
            snapshot: Option<Seq<char>>,
            usage: Option<TraceUsage>,
            provider: Option<Seq<char>>,
            model: Option<Seq<char>>,
            response_id: Option<Seq<char>>,
            now: i64,
        |
            opt_string_view(error) == error_text && #[trigger] finished_in(
                before,
                after,
                id@,
                r,
                status,
                error,
                snapshot,
                usage,
                provider,
                model,
                response_id,
                now,
            ),
        None => r is None && after == before,
    }
}

/// Holds the id of a running trace until it is finished: each `finalize_*` call finishes the
/// trace the first time and does nothing afterwards, and `release` finishes it as aborted if no
/// call did (each method ensures `guard_step`; see `lemma_guard_finishes_once`).
pub struct TraceGuard {
    pub trace_id: Option<String>,
}

impl TraceGuard {
    /// The guard `new` makes over `trace_id`.
    pub open spec fn new_spec(trace_id: String) -> Self {
        TraceGuard { trace_id: Some(trace_id) }
    }

    /// A guard over the trace `trace_id`.
    pub fn new(trace_id: String) -> (g: Self)
        ensures
            g == Self::new_spec(trace_id),
    {
        TraceGuard { trace_id: Some(trace_id) }
    }

    /// The id of the trace while it is not finished yet.
    pub fn id(&self) -> (r: Option<&str>)
        ensures
            opt_str_view(r) == opt_string_view(self.trace_id),
    {
        match &self.trace_id {
            Some(id) => Some(id.as_str()),
            None => None,
        }
    }

    fn finish(
        &mut self,
        registry: &mut TraceRegistry,
        status: &str,
        error: Option<String>,
        snapshot: Option<String>,
        usage: Option<TraceUsage>,
        provider: Option<String>,
        model: Option<String>,
        response_id: Option<String>,
        now: i64,
    ) -> (r: Option<TraceEntry>)
        requires
            old(registry).wf(),
        ensures
            final(self).trace_id is None,
            match old(self).trace_id {
                Some(id) => finished_in(
                    *old(registry),
                    *final(registry),
                    id@,
                    r,
                    status@,
                    error,
                    opt_string_view(snapshot),
                    usage,
                    opt_string_view(provider),
                    opt_string_view(model),
                    opt_string_view(response_id),
                    now,
                ),
                None => r is None && *final(registry) == *old(registry),
            },
    {
        let mut taken: Option<String> = None;
        std::mem::swap(&mut taken, &mut self.trace_id);
        match taken {
            Some(id) => registry.finalize(
                id.as_str(),
                status,
                error,
                snapshot,
                usage,
                provider,
                model,
                response_id,
                now,
            ),
            None => None,
        }
    }

    /// Finishes the trace as `done` with the final reply text, usage, provider, model and
    /// response id; does nothing once the trace is finished.
    pub fn finalize_done(
        &mut self,
        registry: &mut TraceRegistry,
        response_text: Option<String>,
        usage: Option<TraceUsage>,
        provider: Option<String>,
        model: Option<String>,
        response_id: Option<String>,
        now: i64,
    ) -> (r: Option<TraceEntry>)
        requires
            old(registry).wf(),
        ensures
            final(self).trace_id is None,
            guard_step(old(self).trace_id, final(self).trace_id, *old(registry), *final(registry), r, "done"@, None),
            match old(self).trace_id {
                Some(id) => finished_in(
                    *old(registry),
                    *final(registry),
                    id@,
                    r,
                    "done"@,
                    None,
                    opt_string_view(response_text),
                    usage,
                    opt_string_view(provider),
                    opt_string_view(model),
                    opt_string_view(response_id),
                    now,
                ),
                None => r is None && *final(registry) == *old(registry),
            },
    {
        self.finish(registry, "done", None, response_text, usage, provider, model, response_id, now)
    }

    /// Finishes the trace as `error` with the given message; does nothing once the trace is
    /// finished.
    pub fn finalize_error(&mut self, registry: &mut TraceRegistry, error: String, now: i64) -> (r: Option<TraceEntry>)
        requires
            old(registry).wf(),
        ensures
            final(self).trace_id is None,
            guard_step(
                old(self).trace_id,
                final(self).trace_id,
                *old(registry),
                *final(registry),
                r,
                "error"@,
                Some(error@),
            ),
            match old(self).trace_id {
                Some(id) => finished_in(
                    *old(registry),
                    *final(registry),
                    id@,
                    r,
                    "error"@,
                    Some(error),
                    None,
                    None,
                    None,
                    None,
                    None,
                    now,
                ),
                None => r is None && *final(registry) == *old(registry),
            },
    {
        self.finish(registry, "error", Some(error), None, None, None, None, None, now)
    }

    /// Finishes the trace as `aborted` with the given message; does nothing once the trace is
    /// finished.
    pub fn finalize_aborted(&mut self, registry: &mut TraceRegistry, error: String, now: i64) -> (r: Option<TraceEntry>)
        requires
            old(registry).wf(),
        ensures
            final(self).trace_id is None,
            guard_step(
                old(self).trace_id,
                final(self).trace_id,
                *old(registry),
                *final(registry),
                r,
                "aborted"@,
                Some(error@),
            ),
            match old(self).trace_id {
                Some(id) => finished_in(
                    *old(registry),
                    *final(registry),
                    id@,
                    r,
                    "aborted"@,
                    Some(error),
                    None,
                    None,
                    None,
                    None,
                    None,
                    now,
                ),
                None => r is None && *final(registry) == *old(registry),
            },
    {
        self.finish(registry, "aborted", Some(error), None, None, None, None, None, now)
    }

    /// Lets the guard go: a trace not finished yet is finished as `aborted`, its error saying
    /// that the call ended early without an explicit outcome.
    pub fn release(self, registry: &mut TraceRegistry, now: i64) -> (r: Option<TraceEntry>)
        requires
            old(registry).wf(),
        ensures
            guard_step(self.trace_id, None, *old(registry), *final(registry), r, "aborted"@, Some(abandoned_error())),
            match self.trace_id {
                Some(id) => exists|error: String|
                    error@ == abandoned_error() && #[trigger] finished_in(
                        *old(registry),
                        *final(registry),
                        id@,
                        r,
                        "aborted"@,
                        Some(error),
                        None,
                        None,
                        None,
                        None,
                        None,
                        now,
                    ),
                None => r is None && *final(registry) == *old(registry),
            },
    {
        let mut guard = self;
        let error = "调用流程提前结束（未显式标记完成）".to_string();
        guard.finalize_aborted(registry, error, now)
    }
}

/// Keeps the traces of a scope, in order.
fn keep_in_scope(entries: Vec<TraceEntry>, workspace_id: Option<&str>, session_id: Option<&str>) -> (r: Vec<TraceEntry>)
    ensures
        r@ == in_scope_entries(entries@, opt_str_view(workspace_id), opt_str_view(session_id)),
{
    let ghost orig = entries@;
    let ghost ws = opt_str_view(workspace_id);
    let ghost sid = opt_str_view(session_id);
    let total = entries.len();
    let mut rest = entries;
    let mut out: Vec<TraceEntry> = Vec::new();
    let mut taken: usize = 0;
    while rest.len() > 0
        invariant
            taken + rest.len() == total,
            total == orig.len(),
            rest@ == orig.skip(taken as int),
            ws == opt_str_view(workspace_id),
            sid == opt_str_view(session_id),
            out@ == in_scope_entries(orig.take(taken as int), ws, sid),
        decreases rest.len(),
    {
        let ghost before = out@;
        let e = rest.remove(0);
        assert(e == orig[taken as int]);
        assert(rest@ =~= orig.skip(taken + 1));
        assert(orig.take(taken + 1).drop_last() =~= orig.take(taken as int));
        assert(orig.take(taken + 1).last() == orig[taken as int]);
        reveal_with_fuel(Seq::filter, 1);
        if e.matches_scope(workspace_id, session_id) {
            out.push(e);
            assert(out@ =~= before.push(orig[taken as int]));
        }
        taken = taken + 1;
    }
    assert(orig.take(total as int) =~= orig);
    out
}

/// The traces the debug panel lists: the running ones and the archived ones of the scope,
/// newest first, at most `limit` of them.
pub open spec fn recent_traces(
    running: Seq<TraceEntry>,
    archived: Seq<Option<TraceEntry>>,
    workspace_id: Option<Seq<char>>,
    session_id: Option<Seq<char>>,
    limit: nat,
) -> Seq<TraceEntry> {
    let all = in_scope_entries(running, workspace_id, session_id) + scoped_traces(
        archived,
        workspace_id,
        session_id,
    );
    newest_first_order(all).take(
        if limit <= all.len() {
            limit as int
        } else {
            all.len() as int
        },
    )
}

/// Lists the running traces and the archived records (`None` for a record that did not parse)
/// of a scope, newest first, keeping at most `limit`.
pub fn list_recent(
    running: Vec<TraceEntry>,
    archived: Vec<Option<TraceEntry>>,
    workspace_id: Option<&str>,
    session_id: Option<&str>,
    limit: usize,
) -> (r: Vec<TraceEntry>)
    ensures
        r@ == recent_traces(
            running@,
            archived@,
            opt_str_view(workspace_id),
            opt_str_view(session_id),
            limit as nat,
        ),
{
    let mut out = keep_in_scope(running, workspace_id, session_id);
    let mut older = scoped_trace_entries(archived, workspace_id, session_id);
    out.append(&mut older);
    newest_first(out, limit)
}


proof fn lemma_scoped_traces_in_scope(
    parsed: Seq<Option<TraceEntry>>,
    workspace_id: Option<Seq<char>>,
    session_id: Option<Seq<char>>,
)
    ensures
        forall|i: int| 0 <= i < scoped_traces(parsed, workspace_id, session_id).len() ==> entry_in_scope(
            #[trigger] scoped_traces(parsed, workspace_id, session_id)[i],
            workspace_id,
            session_id,
        ),
    decreases parsed.len(),
{
    if parsed.len() > 0 {
        lemma_scoped_traces_in_scope(parsed.drop_last(), workspace_id, session_id);
        let prev = scoped_traces(parsed.drop_last(), workspace_id, session_id);
        let cur = scoped_traces(parsed, workspace_id, session_id);
        assert forall|i: int| 0 <= i < cur.len() implies entry_in_scope(#[trigger] cur[i], workspace_id, session_id) by {
            if i < prev.len() {
                assert(cur[i] == prev[i]);
            }
        }
    }
}

/// What the debug panel's list of recent traces promises: at most `limit` entries, newest first,
/// all of the scope; and when no more than `limit` traces of the scope exist, every running one
/// is listed.
pub proof fn lemma_recent_traces_bounded_sorted_scoped(
    running: Seq<TraceEntry>,
    archived: Seq<Option<TraceEntry>>,
    workspace_id: Option<Seq<char>>,
    session_id: Option<Seq<char>>,
    limit: nat,
)
    ensures
        ({
            let r = recent_traces(running, archived, workspace_id, session_id, limit);
            let all = in_scope_entries(running, workspace_id, session_id) + scoped_traces(
                archived,
                workspace_id,
                session_id,
            );
            &&& r.len() <= limit
            &&& is_newest_first(r)
            &&& forall|i: int| 0 <= i < r.len() ==> entry_in_scope(#[trigger] r[i], workspace_id, session_id)
            &&& all.len() <= limit ==> forall|e: TraceEntry|
                #![trigger running.contains(e), r.contains(e)]
                running.contains(e) && entry_in_scope(e, workspace_id, session_id) ==> r.contains(e)
        }),
{
    broadcast use vstd::seq_lib::to_multiset_contains, vstd::seq_lib::group_filter_ensures;
    let f = in_scope_entries(running, workspace_id, session_id);
    let a = scoped_traces(archived, workspace_id, session_id);
    let all = f + a;
    let o = newest_first_order(all);
    lemma_newest_first_sorted(all);
    lemma_scoped_traces_in_scope(archived, workspace_id, session_id);
    let k = if limit <= all.len() {
        limit as int
    } else {
        all.len() as int
    };
    let r = o.take(k);
    assert(r == recent_traces(running, archived, workspace_id, session_id, limit));
    assert forall|i: int, j: int| #![trigger r[i], r[j]] 0 <= i < j < r.len() implies r[i].started_at
        >= r[j].started_at by {
        assert(r[i] == o[i] && r[j] == o[j]);
    }
    assert forall|i: int| 0 <= i < r.len() implies entry_in_scope(#[trigger] r[i], workspace_id, session_id) by {
        assert(r[i] == o[i]);
        assert(o.contains(o[i]));
        assert(o.to_multiset().count(o[i]) > 0);
        assert(all.contains(o[i]));
        let x = choose|x: int| 0 <= x < all.len() && all[x] == o[i];
        if x < f.len() {
            assert(all[x] == f[x]);
        } else {
            assert(all[x] == a[x - f.len()]);
        }
    }
    if all.len() <= limit {
        assert(r =~= o);
        assert forall|e: TraceEntry| #![trigger running.contains(e), r.contains(e)] running.contains(e)
            && entry_in_scope(e, workspace_id, session_id) implies r.contains(e) by {
            let x = choose|x: int| 0 <= x < running.len() && running[x] == e;
            running.lemma_filter_contains(|t: TraceEntry| entry_in_scope(t, workspace_id, session_id), x);
            let y = choose|y: int| 0 <= y < f.len() && f[y] == e;
            assert(all[y] == e);
            assert(all.contains(e));
            assert(all.to_multiset().count(e) > 0);
        }
    }
}

/// Finishing a trace takes it out of the registry and records its outcome: the status and
/// error given, the finish time `now`, the duration from its start (never negative), and the
/// snapshot as reply text when that is longer than the streamed text; a second finish of the
/// same trace finds nothing and changes nothing.
pub proof fn lemma_finalize_once(
    before: TraceRegistry,
    after: TraceRegistry,
    again: TraceRegistry,
    trace_id: Seq<char>,
    e: TraceEntry,
    status: Seq<char>,
    error: Option<String>,
    snapshot: Option<Seq<char>>,
    usage: Option<TraceUsage>,
    provider: Option<Seq<char>>,
    model: Option<Seq<char>>,
    response_id: Option<Seq<char>>,
    now: i64,
    r2: Option<TraceEntry>,
    status2: Seq<char>,
    error2: Option<String>,
    snapshot2: Option<Seq<char>>,
    usage2: Option<TraceUsage>,
    provider2: Option<Seq<char>>,
    model2: Option<Seq<char>>,
    response_id2: Option<Seq<char>>,
    now2: i64,
)
    requires
        finished_in(before, after, trace_id, Some(e), status, error, snapshot, usage, provider, model, response_id, now),
        finished_in(after, again, trace_id, r2, status2, error2, snapshot2, usage2, provider2, model2, response_id2, now2),
    ensures
        ({
            let started = before.entries@[trace_index(before.entries@, trace_id)];
            &&& trace_index(before.entries@, trace_id) >= 0
            &&& trace_index(after.entries@, trace_id) < 0
            &&& e.id == started.id
            &&& e.status@ == status
            &&& e.error == error
            &&& e.finished_at == Some(now)
            &&& e.duration_ms == Some(crate::llm_trace::duration_of(started.started_at, Some(now), now))
            &&& e.response_text@ == crate::trace_registry::finalized_text(started.response_text@, snapshot)
        }),
        r2 is None,
        again.entries@ == after.entries@,
{
}


/// Call `i` of a run of calls on a guard (see `guard_step`).
pub open spec fn step_at(
    guards: Seq<TraceGuard>,
    registries: Seq<TraceRegistry>,
    results: Seq<Option<TraceEntry>>,
    statuses: Seq<Seq<char>>,
    errors: Seq<Option<Seq<char>>>,
    i: int,
) -> bool {
    guard_step(guards[i].trace_id, guards[i + 1].trace_id, registries[i], registries[i + 1], results[i], statuses[i], errors[i])
}

/// A guard finishes its trace exactly once: over any run of calls on a guard made by `new`
/// (`finalize_*` any number of times, then `release`; each of them ensures `guard_step` from
/// the guard before the call to the guard after it, a released guard holding nothing), the
/// first call finishes the running trace with its own status and error, and every later call
/// returns nothing and leaves the registry unchanged.
pub proof fn lemma_guard_finishes_once(
    guards: Seq<TraceGuard>,
    registries: Seq<TraceRegistry>,
    results: Seq<Option<TraceEntry>>,
    statuses: Seq<Seq<char>>,
    errors: Seq<Option<Seq<char>>>,
    trace_id: String,
)
    requires
        guards.len() == results.len() + 1,
        registries.len() == results.len() + 1,
        statuses.len() == results.len(),
        errors.len() == results.len(),
        guards[0] == TraceGuard::new_spec(trace_id),
        trace_id@.len() > 0,
        trace_index(registries[0].entries@, trace_id@) >= 0,
        forall|i: int| 0 <= i < results.len() ==> #[trigger] step_at(guards, registries, results, statuses, errors, i),
    ensures
        forall|i: int| 1 <= i < results.len() ==> (#[trigger] results[i]) is None && registries[i + 1]
            == registries[i],
        results.len() > 0 ==> (results[0] matches Some(e) && e.status@ == statuses[0] && opt_string_view(
            e.error,
        ) == errors[0] && trace_index(registries[1].entries@, trace_id@) < 0),
{
    if results.len() > 0 {
        assert(step_at(guards, registries, results, statuses, errors, 0));
    }
    assert forall|i: int| 1 <= i < results.len() implies (#[trigger] results[i]) is None && registries[i + 1]
        == registries[i] by {
        assert(step_at(guards, registries, results, statuses, errors, i - 1));
        assert(step_at(guards, registries, results, statuses, errors, i));
    }
}

} // verus!
