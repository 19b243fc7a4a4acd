//! Properties of whole runs, proved from the engine's transitions.
use vstd::prelude::*;
use crate::conf::Conf;
use crate::engine::{
    EngineView, PhaseView, Transition, advance_spec, entries_spec, entry_scanned, effective_local,
    ignored_spec, mark_checked_spec, mark_set_spec, override_spec, process_directory_spec,
    process_spec, subdir_tasks,
};
use crate::engine_types::{EntryView, RequestView, TaskView};
use crate::reset::{
    ResetRequestView, ResetTaskView, ResetView, after_entry, listing_tasks, reset_allowed,
    reset_checked_spec, walks_into,
};
use crate::rules::{
    allow_matched, ancestor_of, candidate_kept, candidates_spec, excluded, is_root, is_service_file,
    kept_upto, reduce_roots_spec, roots_upto, skip_matched, skipped_between,
};
use crate::time_machine::TimeMachineErrorView;

verus! {

/// An answer to the engine's last request.
pub enum EventView {
    Start,
    Canonical(Result<Seq<char>, Seq<char>>),
    Override(Option<Seq<char>>),
    MarkChecked(Result<bool, TimeMachineErrorView>),
    MarkSet(Result<(), TimeMachineErrorView>),
    Ignored(Option<Seq<String>>),
    Entries(Result<Seq<EntryView>, Seq<char>>),
}

/// The engine in state `v` takes answer `e`.
pub open spec fn accepts(v: EngineView, e: EventView) -> bool {
    match e {
        EventView::Start => v.phase is Idle,
        EventView::Canonical(_) => v.phase is Path || v.phase is Dir,
        EventView::Override(_) => v.phase is DirOverride,
        EventView::MarkChecked(_) => v.phase is PathCheck || v.phase is DirCheck,
        EventView::MarkSet(_) => v.phase is PathSet,
        EventView::Ignored(_) => v.phase is DirIgnored,
        EventView::Entries(_) => v.phase is DirEntries,
    }
}

/// The move that answer `e` makes from state `v`.
pub open spec fn next(conf: &Conf, v: EngineView, e: EventView) -> Transition {
    match e {
        EventView::Start => advance_spec(v.processed, v.stack, Seq::empty()),
        EventView::Canonical(r) => if v.phase is Path {
            process_spec(conf, v, r)
        } else {
            process_directory_spec(v, r)
        },
        EventView::Override(c) => override_spec(conf, v, c),
        EventView::MarkChecked(m) => mark_checked_spec(conf, v, m),
        EventView::MarkSet(r) => mark_set_spec(conf, v, r),
        EventView::Ignored(r) => ignored_spec(conf, v, r),
        EventView::Entries(r) => entries_spec(conf, v, r),
    }
}

/// The move from `v` on `e` takes the decision on path `p`: it records `p`
/// and reads, reports or sets its marker.
pub open spec fn decides(v: EngineView, e: EventView, p: Seq<char>) -> bool {
    ||| v.phase is Path && e == EventView::Canonical(Ok(p)) && !v.processed.contains(p)
    ||| v.phase is DirCheck && v.phase->DirCheck_path == p && e == EventView::MarkChecked(Ok(true))
}

/// What holds of every state that a run reaches: a directory whose marker
/// is being read has not been visited.
pub open spec fn inv(v: EngineView) -> bool {
    v.phase is DirCheck ==> !v.processed.contains(v.phase->DirCheck_path)
}

/// `states` and `events` make up a run: each state follows from the one
/// before by the answer between them.
pub open spec fn is_run(conf: &Conf, states: Seq<EngineView>, events: Seq<EventView>) -> bool {
    &&& states.len() == events.len() + 1
    &&& forall|k: int|
        0 <= k < events.len() ==> accepts(states[k], events[k]) && #[trigger] states[k + 1] == next(
            conf,
            states[k],
            events[k],
        ).state
}

/// The engine's request names the call that answers it: the state it
/// leaves waits for exactly that answer.
pub open spec fn request_fits(request: RequestView, phase: PhaseView) -> bool {
    match request {
        RequestView::CanonicalizePath(p) => phase == PhaseView::Path { path: p },
        RequestView::CanonicalizeDirectory(p) => phase is Dir && phase->Dir_path == p,
        RequestView::ReadOverride(d) => phase is DirOverride && phase->DirOverride_path == d,
        RequestView::CheckMark(p) => (phase is PathCheck && phase->PathCheck_path == p) || (
        phase is DirCheck && phase->DirCheck_path == p),
        RequestView::SetMark(p) => phase == PhaseView::PathSet { path: p },
        RequestView::ListIgnored(d) => phase is DirIgnored && phase->DirIgnored_path == d,
        RequestView::ListEntries(d) => phase is DirEntries && phase->DirEntries_path == d,
        RequestView::Finished => phase is Finished,
        RequestView::Failed(_) => phase is Finished,
    }
}

/// Answering each request with the call it names is always allowed: after
/// every move the engine waits for the answer to the request it made.
pub proof fn lemma_request_fits(conf: &Conf, v: EngineView, e: EventView)
    requires
        accepts(v, e),
    ensures
        request_fits(next(conf, v, e).request, next(conf, v, e).state.phase),
{
}

/// A dry run changes no marker: along a whole run with `dry_run` set, no
/// move asks for a marker to be set.
pub proof fn lemma_dry_run_sets_nothing(conf: &Conf, states: Seq<EngineView>, events: Seq<EventView>, k: int)
    requires
        conf.dry_run,
        is_run(conf, states, events),
        0 <= k < events.len(),
    ensures
        !(next(conf, states[k], events[k]).request is SetMark),
{
    assert(states[k + 1] == next(conf, states[k], events[k]).state);
}

/// Every move keeps what was visited, and keeps the invariant.
pub proof fn lemma_step(conf: &Conf, v: EngineView, e: EventView)
    requires
        inv(v),
        accepts(v, e),
    ensures
        v.processed.subset_of(next(conf, v, e).state.processed),
        inv(next(conf, v, e).state),
{
    let t = next(conf, v, e);
    assert(v.processed.subset_of(v.processed.insert(v.phase->DirCheck_path)));
    match e {
        EventView::Canonical(r) => {
            if v.phase is Path {
                match r {
                    Ok(c) => {
                        assert(v.processed.subset_of(v.processed.insert(c)));
                    },
                    Err(_) => {},
                }
            }
        },
        EventView::Override(c) => {
            let dir = v.phase->DirOverride_path;
            assert(v.processed.subset_of(v.processed.insert(dir)));
        },
        _ => {},
    }
}

/// A decision on `p` is taken only for a path not visited yet, and records it.
pub proof fn lemma_decision_records(conf: &Conf, v: EngineView, e: EventView, p: Seq<char>)
    requires
        inv(v),
        accepts(v, e),
        decides(v, e, p),
    ensures
        !v.processed.contains(p),
        next(conf, v, e).state.processed.contains(p),
{
}

/// Idempotent visitation: along one run, the decision on a path (recording
/// it, reading its marker, reporting it and setting the marker) is taken at
/// most once.
pub proof fn lemma_decided_at_most_once(
    conf: &Conf,
    states: Seq<EngineView>,
    events: Seq<EventView>,
    i: int,
    j: int,
    p: Seq<char>,
)
    requires
        is_run(conf, states, events),
        inv(states[0]),
        0 <= i < j < events.len(),
        decides(states[i], events[i], p),
    ensures
        !decides(states[j], events[j], p),
{
    lemma_run_keeps(conf, states, events, i);
    lemma_decision_records(conf, states[i], events[i], p);
    assert(states[i + 1] == next(conf, states[i], events[i]).state);
    lemma_run_grows(conf, states, events, i + 1, j);
    lemma_run_keeps(conf, states, events, j);
}

/// Every state of a run that starts well keeps the invariant.
pub proof fn lemma_run_keeps(conf: &Conf, states: Seq<EngineView>, events: Seq<EventView>, k: int)
    requires
        is_run(conf, states, events),
        inv(states[0]),
        0 <= k <= events.len(),
    ensures
        inv(states[k]),
    decreases k,
{
    if k > 0 {
        lemma_run_keeps(conf, states, events, k - 1);
        lemma_step(conf, states[k - 1], events[k - 1]);
        assert(states[(k - 1) + 1] == next(conf, states[k - 1], events[k - 1]).state);
    }
}

/// What is visited stays visited along a run.
pub proof fn lemma_run_grows(conf: &Conf, states: Seq<EngineView>, events: Seq<EventView>, a: int, b: int)
    requires
        is_run(conf, states, events),
        inv(states[0]),
        0 <= a <= b <= events.len(),
    ensures
        states[a].processed.subset_of(states[b].processed),
    decreases b - a,
{
    if a < b {
        lemma_run_grows(conf, states, events, a, b - 1);
        lemma_run_keeps(conf, states, events, b - 1);
        lemma_step(conf, states[b - 1], events[b - 1]);
        assert(states[(b - 1) + 1] == next(conf, states[b - 1], events[b - 1]).state);
    }
}

/// A run starts in a state that keeps the invariant.
pub proof fn lemma_initial(conf: &Conf)
    ensures
        inv(crate::engine::initial_spec(conf)),
{
}

/// Every member of the first `n` roots is a root of `raw`.
proof fn lemma_roots_are_roots(raw: Seq<String>, n: int, x: Seq<char>)
    requires
        0 <= n <= raw.len(),
        roots_upto(raw, n).contains(x),
    ensures
        exists|i: int| 0 <= i < n && is_root(raw, i) && #[trigger] raw[i]@ == x,
    decreases n,
{
    if n > 0 {
        let before = roots_upto(raw, n - 1);
        if is_root(raw, n - 1) {
            if before.contains(x) {
                lemma_roots_are_roots(raw, n - 1, x);
            } else {
                let k = choose|k: int| 0 <= k < roots_upto(raw, n).len() && roots_upto(raw, n)[k] == x;
                assert(k == before.len());
                assert(raw[n - 1]@ == x);
            }
        } else {
            lemma_roots_are_roots(raw, n - 1, x);
        }
    }
}

/// Roots found among the first `n` members stay found among more.
proof fn lemma_roots_grow(raw: Seq<String>, n: int, m: int, x: Seq<char>)
    requires
        0 <= n <= m <= raw.len(),
        roots_upto(raw, n).contains(x),
    ensures
        roots_upto(raw, m).contains(x),
    decreases m - n,
{
    if n < m {
        lemma_roots_grow(raw, n, m - 1, x);
        let before = roots_upto(raw, m - 1);
        let k = choose|k: int| 0 <= k < before.len() && before[k] == x;
        if is_root(raw, m - 1) {
            assert(roots_upto(raw, m)[k] == x);
        }
    }
}

/// A member with no ancestor in `raw` survives root-reduction.
proof fn lemma_root_present(raw: Seq<String>, a: int)
    requires
        0 <= a < raw.len(),
        forall|j: int| 0 <= j < raw.len() ==> !ancestor_of(#[trigger] raw[j]@, raw[a]@),
    ensures
        reduce_roots_spec(raw).contains(raw[a]@),
    decreases a,
{
    if is_root(raw, a) {
        let r = roots_upto(raw, a + 1);
        assert(r[r.len() - 1] == raw[a]@);
        lemma_roots_grow(raw, a + 1, raw.len() as int, raw[a]@);
    } else {
        let j = choose|j: int| 0 <= j < a && #[trigger] raw[j]@ == raw[a]@;
        lemma_root_present(raw, j);
    }
}

/// The members of `kept_upto` are among `paths` and kept by the rules.
proof fn lemma_kept(conf: &Conf, local: Seq<Seq<char>>, dir: Seq<char>, paths: Seq<Seq<char>>, n: int, x: Seq<char>)
    requires
        0 <= n <= paths.len(),
        kept_upto(conf, local, dir, paths, n).contains(x),
    ensures
        paths.contains(x),
        candidate_kept(conf, local, dir, x),
    decreases n,
{
    if n > 0 {
        let before = kept_upto(conf, local, dir, paths, n - 1);
        if candidate_kept(conf, local, dir, paths[n - 1]) && !before.contains(x) {
            let k = choose|k: int| 0 <= k < kept_upto(conf, local, dir, paths, n).len() && kept_upto(conf, local, dir, paths, n)[k] == x;
            assert(k == before.len());
            assert(paths[n - 1] == x);
        } else {
            lemma_kept(conf, local, dir, paths, n - 1, x);
        }
    }
}

/// Root-reduction: where the ignore provider reports a path `raw[a]` and a
/// descendant `raw[b]` of it, the descendant is dropped, from the reduced
/// list and so from the candidates; the ancestor stays in the reduced list
/// unless it has an ancestor of its own there.
pub proof fn lemma_root_reduction(conf: &Conf, local: Seq<Seq<char>>, dir: Seq<char>, raw: Seq<String>, a: int, b: int)
    requires
        0 <= a < raw.len(),
        0 <= b < raw.len(),
        ancestor_of(raw[a]@, raw[b]@),
    ensures
        !reduce_roots_spec(raw).contains(raw[b]@),
        !candidates_spec(conf, local, dir, Some(raw)).contains(raw[b]@),
        (forall|j: int| 0 <= j < raw.len() ==> !ancestor_of(#[trigger] raw[j]@, raw[a]@))
            ==> reduce_roots_spec(raw).contains(raw[a]@),
{
    let roots = reduce_roots_spec(raw);
    if roots.contains(raw[b]@) {
        lemma_roots_are_roots(raw, raw.len() as int, raw[b]@);
        let i = choose|i: int| 0 <= i < raw.len() && is_root(raw, i) && #[trigger] raw[i]@ == raw[b]@;
        assert(!ancestor_of(raw[a]@, raw[i]@));
    }
    if candidates_spec(conf, local, dir, Some(raw)).contains(raw[b]@) {
        lemma_kept(conf, local, dir, roots, roots.len() as int, raw[b]@);
    }
    if forall|j: int| 0 <= j < raw.len() ==> !ancestor_of(#[trigger] raw[j]@, raw[a]@) {
        lemma_root_present(raw, a);
    }
}

/// Skip pruning and allowlist, for ignored paths: a candidate handed on to be
/// marked is matched by no skip rule, lies below no directory that a skip rule
/// matches, and is matched by no allowlist rule.
pub proof fn lemma_candidates_obey_rules(conf: &Conf, local: Seq<Seq<char>>, dir: Seq<char>, raw: Option<Seq<String>>, c: Seq<char>)
    requires
        candidates_spec(conf, local, dir, raw).contains(c),
    ensures
        !skip_matched(conf, local, c),
        !skipped_between(conf, local, dir, c),
        !allow_matched(conf, c),
        !is_service_file(c),
{
    match raw {
        Some(r) => {
            let roots = reduce_roots_spec(r);
            lemma_kept(conf, local, dir, roots, roots.len() as int, c);
        },
        None => {},
    }
}

/// Skip pruning, for directories: a directory matched by a skip rule (its
/// own override file included) is recorded, its marker is not read, and
/// nothing is queued for it.
pub proof fn lemma_skipped_directory_pruned(conf: &Conf, v: EngineView, content: Option<Seq<char>>)
    requires
        v.phase is DirOverride,
        skip_matched(
            conf,
            effective_local(v.phase->DirOverride_local, v.phase->DirOverride_path, content),
            v.phase->DirOverride_path,
        ),
    ensures
        override_spec(conf, v, content).state.processed.contains(v.phase->DirOverride_path),
        override_spec(conf, v, content).state.stack == (if v.stack.len() > 0 {
            v.stack.drop_last()
        } else {
            v.stack
        }),
        override_spec(conf, v, content).request != RequestView::CheckMark(v.phase->DirOverride_path),
{
}

/// The tasks queued for a listing are scans of entries that are not excluded,
/// each with the listed directory's skip-globs.
pub proof fn lemma_subdirs(conf: &Conf, local: Seq<Seq<char>>, processed: Set<Seq<char>>, es: Seq<EntryView>, n: int, k: int)
    requires
        0 <= n <= es.len(),
        0 <= k < subdir_tasks(conf, local, processed, es, n).len(),
    ensures
        subdir_tasks(conf, local, processed, es, n)[k] is Directory,
        subdir_tasks(conf, local, processed, es, n)[k]->Directory_local == local,
        !excluded(conf, local, processed, subdir_tasks(conf, local, processed, es, n)[k]->Directory_path),
        !skip_matched(conf, local, subdir_tasks(conf, local, processed, es, n)[k]->Directory_path),
    decreases n,
{
    if n > 0 {
        let before = subdir_tasks(conf, local, processed, es, n - 1);
        if k < before.len() {
            lemma_subdirs(conf, local, processed, es, n - 1, k);
        }
    }
}

/// The scans queued for a listing, as found among its first `n` entries.
proof fn lemma_scanned_entry_queued(conf: &Conf, local: Seq<Seq<char>>, processed: Set<Seq<char>>, es: Seq<EntryView>, n: int, i: int)
    requires
        0 <= i < n <= es.len(),
        entry_scanned(conf, local, processed, es[i]),
    ensures
        subdir_tasks(conf, local, processed, es, n).contains(TaskView::Directory { path: es[i].path, local }),
    decreases n,
{
    let t = TaskView::Directory { path: es[i].path, local };
    let before = subdir_tasks(conf, local, processed, es, n - 1);
    if i == n - 1 {
        assert(subdir_tasks(conf, local, processed, es, n)[before.len() as int] == t);
    } else {
        lemma_scanned_entry_queued(conf, local, processed, es, n - 1, i);
        let k = choose|k: int| 0 <= k < before.len() && before[k] == t;
        if entry_scanned(conf, local, processed, es[n - 1]) {
            assert(subdir_tasks(conf, local, processed, es, n)[k] == t);
        }
    }
}

/// Allowlist non-pruning: a subdirectory that an allowlist rule matches is
/// still scanned, as long as no skip rule matches it and it was not visited.
pub proof fn lemma_allowlisted_directory_scanned(conf: &Conf, local: Seq<Seq<char>>, processed: Set<Seq<char>>, es: Seq<EntryView>, i: int)
    requires
        0 <= i < es.len(),
        allow_matched(conf, es[i].path),
        es[i].is_dir,
        !es[i].is_symlink,
        !processed.contains(es[i].path),
        !is_service_file(es[i].path),
        !skip_matched(conf, local, es[i].path),
    ensures
        subdir_tasks(conf, local, processed, es, es.len() as int).contains(
            (TaskView::Directory { path: es[i].path, local }),
        ),
{
    lemma_scanned_entry_queued(conf, local, processed, es, es.len() as int, i);
}

/// The skip-globs in force in the directory whose override file is read.
pub open spec fn scope_of(v: EngineView, content: Option<Seq<char>>) -> Seq<Seq<char>> {
    effective_local(v.phase->DirOverride_local, v.phase->DirOverride_path, content)
}

/// Override inheritance: once a directory's override file is read, the
/// globs in force for it are those inherited followed by its own, and the
/// work already queued (its siblings, and what its ancestors still have to
/// do) is left as it was. Its subdirectories inherit exactly its globs
/// (`lemma_subdirs`).
pub proof fn lemma_override_scope(conf: &Conf, v: EngineView, content: Option<Seq<char>>)
    requires
        v.phase is DirOverride,
        !excluded(conf, scope_of(v, content), v.processed, v.phase->DirOverride_path),
    ensures
        override_spec(conf, v, content).state.phase == (PhaseView::DirCheck {
            path: v.phase->DirOverride_path,
            local: scope_of(v, content),
        }),
        override_spec(conf, v, content).state.stack == v.stack,
        scope_of(v, content).subrange(0, v.phase->DirOverride_local.len() as int)
            == v.phase->DirOverride_local,
{
    let local = scope_of(v, content);
    assert(local.subrange(0, v.phase->DirOverride_local.len() as int) =~= v.phase->DirOverride_local);
}

/// Entry `es[i]`, outside the allowlist, is queued to have its marker
/// handled by the listing tasks from index `j` on.
proof fn lemma_listing_visits(g: Seq<Seq<char>>, p: Seq<Seq<char>>, es: Seq<EntryView>, j: int, i: int)
    requires
        0 <= j <= i < es.len(),
        !reset_allowed(g, p, es[i].path),
    ensures
        listing_tasks(g, p, es, j).contains((ResetTaskView::Visit { entry: es[i] })),
    decreases i - j,
{
    let t = ResetTaskView::Visit { entry: es[i] };
    let rest = listing_tasks(g, p, es, j + 1);
    if j == i {
        assert(listing_tasks(g, p, es, j)[rest.len() as int] == t);
    } else {
        lemma_listing_visits(g, p, es, j + 1, i);
        let k = choose|k: int| 0 <= k < rest.len() && rest[k] == t;
        assert(listing_tasks(g, p, es, j)[k] == t);
    }
}

/// One step of the run/reset inverse, stated of single moves of the reset
/// walk (not of a whole run followed by a whole reset): with no allowlist,
/// listing a directory queues every entry to have its marker read; and, not
/// as a dry run, a marker that reads set is cleared, after which the walk
/// goes into the entry if it is a directory.
pub proof fn lemma_reset_unmarks(v: ResetView, es: Seq<EntryView>, i: int)
    requires
        v.phase is Checking,
        0 <= i < es.len(),
    ensures
        !reset_allowed(Seq::empty(), Seq::empty(), es[i].path),
        listing_tasks(Seq::empty(), Seq::empty(), es, 0).contains((ResetTaskView::Visit { entry: es[i] })),
        reset_checked_spec(false, v, Ok(true)).request == ResetRequestView::ClearMark(
            v.phase->Checking_entry.path,
        ),
        walks_into(v.phase->Checking_entry) ==> after_entry(v.stack, v.phase->Checking_entry).last()
            == (ResetTaskView::List { dir: v.phase->Checking_entry.path }),
{
    lemma_listing_visits(Seq::empty(), Seq::empty(), es, 0, i);
}

/// The marker of `p` may be set in a run: no allowlist rule matches it, or
/// it was named explicitly.
pub open spec fn may_mark(conf: &Conf, p: Seq<char>) -> bool {
    !allow_matched(conf, p) || crate::overrides::views(conf.exclude_paths@).contains(p)
}

/// Every path that is queued, or being decided on, may be marked.
pub open spec fn marks_allowed(conf: &Conf, v: EngineView) -> bool {
    &&& forall|k: int|
        0 <= k < v.stack.len() && (#[trigger] v.stack[k]) is Path ==> may_mark(conf, v.stack[k]->Path_path)
    &&& v.phase is Path ==> may_mark(conf, v.phase->Path_path)
    &&& v.phase is PathCheck ==> may_mark(conf, v.phase->PathCheck_path)
    &&& v.phase is PathSet ==> may_mark(conf, v.phase->PathSet_path)
}

/// The answer `e` resolves a path to be decided on to that same path, as
/// for paths that are canonical already.
pub open spec fn resolves_in_place(v: EngineView, e: EventView) -> bool {
    (v.phase is Path && e is Canonical && e->Canonical_0 is Ok) ==> e->Canonical_0->Ok_0 == v.phase->Path_path
}

/// Taking up the next task keeps every queued path markable.
proof fn lemma_advance_marks(conf: &Conf, processed: Set<Seq<char>>, stack: Seq<TaskView>, logs: Seq<(Seq<char>, Seq<char>)>)
    requires
        forall|k: int| 0 <= k < stack.len() && (#[trigger] stack[k]) is Path ==> may_mark(conf, stack[k]->Path_path),
    ensures
        marks_allowed(conf, advance_spec(processed, stack, logs).state),
        !(advance_spec(processed, stack, logs).request is SetMark),
{
    if stack.len() > 0 {
        let rest = stack.drop_last();
        assert forall|k: int| 0 <= k < rest.len() && (#[trigger] rest[k]) is Path implies may_mark(conf, rest[k]->Path_path) by {
            assert(rest[k] == stack[k]);
        }
        assert(stack[stack.len() - 1] == stack.last());
    }
}

/// A run starts with only explicit paths queued for a decision.
proof fn lemma_initial_marks(conf: &Conf)
    ensures
        marks_allowed(conf, crate::engine::initial_spec(conf)),
{
    let v = crate::engine::initial_spec(conf);
    let roots = crate::engine::dir_tasks(crate::overrides::views(conf.paths@), Seq::empty());
    let explicit = crate::overrides::views(conf.exclude_paths@);
    let pt = crate::engine::path_tasks(explicit);
    assert forall|k: int| 0 <= k < v.stack.len() && (#[trigger] v.stack[k]) is Path implies may_mark(conf, v.stack[k]->Path_path) by {
        if k < roots.len() {
            assert(v.stack[k] == roots[k]);
        } else {
            assert(v.stack[k] == pt[k - roots.len()]);
            assert(explicit[explicit.len() - 1 - (k - roots.len())] == v.stack[k]->Path_path);
        }
    }
}

/// One move keeps every queued path markable, and asks to set only the
/// marker of a markable path.
proof fn lemma_step_marks(conf: &Conf, v: EngineView, e: EventView)
    requires
        marks_allowed(conf, v),
        accepts(v, e),
        resolves_in_place(v, e),
    ensures
        marks_allowed(conf, next(conf, v, e).state),
        next(conf, v, e).request is SetMark ==> may_mark(conf, next(conf, v, e).request->SetMark_0),
{
    match e {
        EventView::Start => {
            lemma_advance_marks(conf, v.processed, v.stack, Seq::empty());
        },
        EventView::Canonical(r) => {
            lemma_advance_marks(conf, v.processed, v.stack, Seq::empty());
            match r {
                Err(reason) => {
                    if v.phase is Path {
                        lemma_advance_marks(conf, v.processed, v.stack, seq![(crate::engine::label_error_checking(), crate::engine::detail(v.phase->Path_path, reason))]);
                    }
                },
                Ok(_) => {},
            }
        },
        EventView::Override(c) => {
            let dir = v.phase->DirOverride_path;
            lemma_advance_marks(conf, v.processed.insert(dir), v.stack, Seq::empty());
        },
        EventView::MarkChecked(m) => {
            match v.phase {
                PhaseView::PathCheck { path } => {
                    lemma_advance_marks(conf, v.processed, v.stack, seq![(crate::engine::label_excluded(), path)]);
                    lemma_advance_marks(conf, v.processed, v.stack, seq![(crate::engine::label_new(), path)]);
                    match m {
                        Err(er) => {
                            lemma_advance_marks(conf, v.processed, v.stack, seq![(crate::engine::label_error_checking(), crate::engine::detail(path, crate::time_machine::message_of(er)))]);
                        },
                        _ => {},
                    }
                },
                PhaseView::DirCheck { path, local } => {
                    lemma_advance_marks(conf, v.processed.insert(path), v.stack, seq![(crate::engine::label_excluded(), path)]);
                    match m {
                        Err(er) => {
                            lemma_advance_marks(conf, v.processed, v.stack, seq![(crate::engine::label_error_checking(), crate::engine::detail(path, crate::time_machine::message_of(er)))]);
                        },
                        _ => {},
                    }
                },
                _ => {},
            }
        },
        EventView::MarkSet(r) => {
            let path = v.phase->PathSet_path;
            lemma_advance_marks(conf, v.processed, v.stack, Seq::empty());
            match r {
                Err(er) => {
                    lemma_advance_marks(conf, v.processed, v.stack, seq![(crate::engine::label_error_excluding(), crate::engine::detail(path, crate::time_machine::message_of(er)))]);
                },
                _ => {},
            }
        },
        EventView::Ignored(raw) => {
            let dir = v.phase->DirIgnored_path;
            let local = v.phase->DirIgnored_local;
            let cands = candidates_spec(conf, local, dir, raw);
            let pushed = v.stack.push(TaskView::Children { path: dir, local });
            let pt = crate::engine::path_tasks(cands);
            let stack = pushed + pt;
            assert forall|k: int| 0 <= k < stack.len() && (#[trigger] stack[k]) is Path implies may_mark(conf, stack[k]->Path_path) by {
                if k < v.stack.len() {
                    assert(stack[k] == v.stack[k]);
                } else if k == v.stack.len() {
                    assert(stack[k] == pushed[k]);
                } else {
                    let c = cands[cands.len() - 1 - (k - pushed.len())];
                    assert(stack[k] == pt[k - pushed.len()]);
                    assert(cands.contains(c));
                    lemma_candidates_obey_rules(conf, local, dir, raw, c);
                }
            }
            lemma_advance_marks(conf, v.processed, stack, Seq::empty());
        },
        EventView::Entries(r) => {
            let dir = v.phase->DirEntries_path;
            let local = v.phase->DirEntries_local;
            match r {
                Ok(es) => {
                    let sub = subdir_tasks(conf, local, v.processed, es, es.len() as int);
                    let stack = v.stack + sub;
                    assert forall|k: int| 0 <= k < stack.len() && (#[trigger] stack[k]) is Path implies may_mark(conf, stack[k]->Path_path) by {
                        if k < v.stack.len() {
                            assert(stack[k] == v.stack[k]);
                        } else {
                            assert(stack[k] == sub[k - v.stack.len()]);
                            lemma_subdirs(conf, local, v.processed, es, es.len() as int, k - v.stack.len());
                        }
                    }
                    lemma_advance_marks(conf, v.processed, stack, Seq::empty());
                },
                Err(_) => {},
            }
        },
    }
}

/// Every state of a run keeps every queued path markable.
proof fn lemma_run_marks(conf: &Conf, states: Seq<EngineView>, events: Seq<EventView>, k: int)
    requires
        is_run(conf, states, events),
        states[0] == crate::engine::initial_spec(conf),
        forall|j: int| 0 <= j < events.len() ==> resolves_in_place(#[trigger] states[j], events[j]),
        0 <= k <= events.len(),
    ensures
        marks_allowed(conf, states[k]),
    decreases k,
{
    if k == 0 {
        lemma_initial_marks(conf);
    } else {
        lemma_run_marks(conf, states, events, k - 1);
        assert(states[(k - 1) + 1] == next(conf, states[k - 1], events[k - 1]).state);
        assert(resolves_in_place(states[k - 1], events[k - 1]));
        lemma_step_marks(conf, states[k - 1], events[k - 1]);
    }
}

/// Allowlisted paths are never marked: along a whole run in which paths
/// resolve to themselves, the marker is set only on paths that no allowlist
/// rule matches, or that were named explicitly to be marked.
pub proof fn lemma_allowlisted_never_marked(conf: &Conf, states: Seq<EngineView>, events: Seq<EventView>, k: int)
    requires
        is_run(conf, states, events),
        states[0] == crate::engine::initial_spec(conf),
        forall|j: int| 0 <= j < events.len() ==> resolves_in_place(#[trigger] states[j], events[j]),
        0 <= k < events.len(),
        next(conf, states[k], events[k]).request is SetMark,
    ensures
        may_mark(conf, next(conf, states[k], events[k]).request->SetMark_0),
{
    lemma_run_marks(conf, states, events, k);
    assert(states[k + 1] == next(conf, states[k], events[k]).state);
    assert(resolves_in_place(states[k], events[k]));
    lemma_step_marks(conf, states[k], events[k]);
}

} // verus!
