//! Clearing markers: a walk over every entry below a root, where the
//! allowlist decides only whether an entry's marker is touched.
use vstd::prelude::*;
use crate::engine::TMBliss;
use crate::engine::log_views;
use crate::engine_types::{Entry, EntryView, LogEvent, RunError, RunErrorView};
use crate::time_machine::{TimeMachineError, TimeMachineErrorView};
use crate::overrides::views;
use crate::rules::{any_glob, any_inside, any_glob_matches, any_root_contains};

verus! {

/// An allowlist rule of the reset keeps the marker of `p` as it is.
pub open spec fn reset_allowed(allow_glob: Seq<Seq<char>>, allow_path: Seq<Seq<char>>, p: Seq<char>) -> bool {
    any_inside(allow_path, p) || any_glob(allow_glob, p)
}

impl TMBliss {
    /// Whether the reset leaves the marker of `path` alone, unread.
    pub fn reset_keeps(allowlist_glob: &Vec<String>, allowlist_path: &Vec<String>, path: &str) -> (r: bool)
        ensures
            r == reset_allowed(views(allowlist_glob@), views(allowlist_path@), path@),
    {
        any_root_contains(allowlist_path, path) || any_glob_matches(allowlist_glob, path)
    }
}

/// What the reset walk asks to be done next.
#[derive(Debug, Clone, PartialEq)]
pub enum ResetRequest {
    /// List a directory's entries; answer with `on_entries`.
    ListEntries { dir: String },
    /// Read the marker of a path; answer with `on_mark_checked`.
    CheckMark { path: String },
    /// Clear the marker of a path; answer with `on_mark_cleared`.
    ClearMark { path: String },
    /// The walk is over.
    Finished,
    /// The walk stopped on an error.
    Failed { error: RunError },
}

/// The mathematical value of a [`ResetRequest`].
pub enum ResetRequestView {
    ListEntries(Seq<char>),
    CheckMark(Seq<char>),
    ClearMark(Seq<char>),
    Finished,
    Failed(RunErrorView),
}

impl View for ResetRequest {
    type V = ResetRequestView;

    open spec fn view(&self) -> ResetRequestView {
        match self {
            ResetRequest::ListEntries { dir } => ResetRequestView::ListEntries(dir@),
            ResetRequest::CheckMark { path } => ResetRequestView::CheckMark(path@),
            ResetRequest::ClearMark { path } => ResetRequestView::ClearMark(path@),
            ResetRequest::Finished => ResetRequestView::Finished,
            ResetRequest::Failed { error } => ResetRequestView::Failed(error@),
        }
    }
}

/// What one call on the reset walk hands back.
#[derive(Debug, Clone, PartialEq)]
pub struct ResetStep {
    pub logs: Vec<LogEvent>,
    pub request: ResetRequest,
}

/// Work queued for the reset walk.
#[derive(Debug, Clone, PartialEq)]
pub enum ResetTask {
    /// List a directory and queue its entries.
    List { dir: String },
    /// Handle the marker of an entry, then walk into it if it is a directory.
    Visit { entry: Entry },
}

/// The mathematical value of a [`ResetTask`].
pub enum ResetTaskView {
    List { dir: Seq<char> },
    Visit { entry: EntryView },
}

impl View for ResetTask {
    type V = ResetTaskView;

    open spec fn view(&self) -> ResetTaskView {
        match self {
            ResetTask::List { dir } => ResetTaskView::List { dir: dir@ },
            ResetTask::Visit { entry } => ResetTaskView::Visit { entry: entry@ },
        }
    }
}

/// What the reset walk waits for.
#[derive(Debug, Clone)]
pub enum ResetPhase {
    Idle,
    Listing { dir: String },
    Checking { entry: Entry },
    Clearing { entry: Entry },
    Finished,
}

/// The mathematical value of a [`ResetPhase`].
pub enum ResetPhaseView {
    Idle,
    Listing { dir: Seq<char> },
    Checking { entry: EntryView },
    Clearing { entry: EntryView },
    Finished,
}

impl View for ResetPhase {
    type V = ResetPhaseView;

    open spec fn view(&self) -> ResetPhaseView {
        match self {
            ResetPhase::Idle => ResetPhaseView::Idle,
            ResetPhase::Listing { dir } => ResetPhaseView::Listing { dir: dir@ },
            ResetPhase::Checking { entry } => ResetPhaseView::Checking { entry: entry@ },
            ResetPhase::Clearing { entry } => ResetPhaseView::Clearing { entry: entry@ },
            ResetPhase::Finished => ResetPhaseView::Finished,
        }
    }
}

/// The state of a reset walk: the queued tasks (the last is next) and what
/// it waits for.
pub struct ResetView {
    pub stack: Seq<ResetTaskView>,
    pub phase: ResetPhaseView,
}

/// One move of the reset walk.
pub struct ResetTransition {
    pub state: ResetView,
    pub logs: Seq<(Seq<char>, Seq<char>)>,
    pub request: ResetRequestView,
}

/// The transition that `state` and `step` make up.
pub open spec fn reset_outcome_of(state: ResetView, logs: Seq<(Seq<char>, Seq<char>)>, request: ResetRequestView) -> ResetTransition {
    ResetTransition { state, logs, request }
}

/// Taking up the next task.
pub open spec fn reset_advance_spec(stack: Seq<ResetTaskView>, logs: Seq<(Seq<char>, Seq<char>)>) -> ResetTransition {
    if stack.len() == 0 {
        ResetTransition {
            state: ResetView { stack, phase: ResetPhaseView::Finished },
            logs,
            request: ResetRequestView::Finished,
        }
    } else {
        match stack.last() {
            ResetTaskView::List { dir } => ResetTransition {
                state: ResetView { stack: stack.drop_last(), phase: ResetPhaseView::Listing { dir } },
                logs,
                request: ResetRequestView::ListEntries(dir),
            },
            ResetTaskView::Visit { entry } => ResetTransition {
                state: ResetView { stack: stack.drop_last(), phase: ResetPhaseView::Checking { entry } },
                logs,
                request: ResetRequestView::CheckMark(entry.path),
            },
        }
    }
}

/// Stopping the walk on `error`.
pub open spec fn reset_fail_spec(v: ResetView, error: RunErrorView) -> ResetTransition {
    ResetTransition {
        state: ResetView { stack: v.stack, phase: ResetPhaseView::Finished },
        logs: Seq::empty(),
        request: ResetRequestView::Failed(error),
    }
}

/// The walk goes on below `e` when it is a directory and not a link.
pub open spec fn walks_into(e: EntryView) -> bool {
    e.is_dir && !e.is_symlink
}

/// The task that walks into `e`, if any, on top of `stack`.
pub open spec fn after_entry(stack: Seq<ResetTaskView>, e: EntryView) -> Seq<ResetTaskView> {
    if walks_into(e) {
        stack.push(ResetTaskView::List { dir: e.path })
    } else {
        stack
    }
}

/// The tasks for entry `e`: its marker is handled unless the allowlist keeps
/// it, and the walk goes into it either way.
pub open spec fn entry_tasks(g: Seq<Seq<char>>, p: Seq<Seq<char>>, e: EntryView) -> Seq<ResetTaskView> {
    if reset_allowed(g, p, e.path) {
        if walks_into(e) {
            seq![ResetTaskView::List { dir: e.path }]
        } else {
            Seq::empty()
        }
    } else {
        seq![ResetTaskView::Visit { entry: e }]
    }
}

/// The tasks for the entries `es[i..]`, queued so that `es[i]` comes first.
pub open spec fn listing_tasks(g: Seq<Seq<char>>, p: Seq<Seq<char>>, es: Seq<EntryView>, i: int) -> Seq<ResetTaskView>
    decreases es.len() - i,
{
    if i >= es.len() || i < 0 {
        Seq::empty()
    } else {
        listing_tasks(g, p, es, i + 1) + entry_tasks(g, p, es[i])
    }
}

/// The directory has been listed (or not, which ends the walk).
pub open spec fn reset_entries_spec(g: Seq<Seq<char>>, p: Seq<Seq<char>>, v: ResetView, entries: Result<Seq<EntryView>, Seq<char>>) -> ResetTransition {
    match entries {
        Err(reason) => reset_fail_spec(v, RunErrorView::List { path: v.phase->Listing_dir, reason }),
        Ok(es) => reset_advance_spec(v.stack + listing_tasks(g, p, es, 0), Seq::empty()),
    }
}

/// The marker of the entry being handled has been read: a marked entry is
/// reported and, unless this is a dry run, cleared.
pub open spec fn reset_checked_spec(dry_run: bool, v: ResetView, marked: Result<bool, TimeMachineErrorView>) -> ResetTransition {
    let e = v.phase->Checking_entry;
    match marked {
        Err(error) => reset_fail_spec(v, RunErrorView::Marker { path: e.path, error }),
        Ok(false) => reset_advance_spec(after_entry(v.stack, e), Seq::empty()),
        Ok(true) => if dry_run {
            reset_advance_spec(after_entry(v.stack, e), seq![(crate::engine::label_excluded(), e.path)])
        } else {
            ResetTransition {
                state: ResetView { stack: v.stack, phase: ResetPhaseView::Clearing { entry: e } },
                logs: seq![(crate::engine::label_excluded(), e.path)],
                request: ResetRequestView::ClearMark(e.path),
            }
        },
    }
}

/// Clearing the marker has been tried; a failure ends the walk.
pub open spec fn reset_cleared_spec(v: ResetView, result: Result<(), TimeMachineErrorView>) -> ResetTransition {
    let e = v.phase->Clearing_entry;
    match result {
        Err(error) => reset_fail_spec(v, RunErrorView::Marker { path: e.path, error }),
        Ok(_) => reset_advance_spec(after_entry(v.stack, e), Seq::empty()),
    }
}

/// A walk that clears the markers below a directory.
pub struct Reset {
    allowlist_glob: Vec<String>,
    allowlist_path: Vec<String>,
    dry_run: bool,
    stack: Vec<ResetTask>,
    phase: ResetPhase,
}

impl View for Reset {
    type V = ResetView;

    closed spec fn view(&self) -> ResetView {
        ResetView { stack: self.stack@.map_values(|t: ResetTask| t@), phase: self.phase@ }
    }
}

/// A copy of an entry.
fn copy_entry(e: &Entry) -> (r: Entry)
    ensures
        r@ == e@,
{
    Entry { path: e.path.clone(), is_dir: e.is_dir, is_symlink: e.is_symlink }
}

impl Reset {
    /// The allowlist globs of this walk.
    pub closed spec fn globs(&self) -> Seq<Seq<char>> {
        views(self.allowlist_glob@)
    }

    /// The allowlist paths of this walk.
    pub closed spec fn paths(&self) -> Seq<Seq<char>> {
        views(self.allowlist_path@)
    }

    /// Whether this walk leaves the markers as they are.
    pub closed spec fn is_dry_run(&self) -> bool {
        self.dry_run
    }

    /// A walk below `root`, not started yet.
    pub fn new(root: String, dry_run: bool, allowlist_glob: Vec<String>, allowlist_path: Vec<String>) -> (r: Reset)
        ensures
            r@.stack == seq![ResetTaskView::List { dir: root@ }],
            r@.phase is Idle,
            r.globs() == views(allowlist_glob@),
            r.paths() == views(allowlist_path@),
            r.is_dry_run() == dry_run,
    {
        let mut stack: Vec<ResetTask> = Vec::new();
        stack.push(ResetTask::List { dir: root });
        let r = Reset { allowlist_glob, allowlist_path, dry_run, stack, phase: ResetPhase::Idle };
        assert(r@.stack =~= seq![ResetTaskView::List { dir: root@ }]);
        r
    }

    /// Takes up the next task.
    fn advance(&mut self, logs: Vec<LogEvent>) -> (s: ResetStep)
        ensures
            final(self).allowlist_glob == old(self).allowlist_glob,
            final(self).allowlist_path == old(self).allowlist_path,
            final(self).dry_run == old(self).dry_run,
            reset_outcome_of(final(self)@, log_views(s.logs@), s.request@) == reset_advance_spec(
                old(self)@.stack,
                log_views(logs@),
            ),
    {
        let ghost st = old(self)@.stack;
        let top = self.stack.pop();
        proof {
            if st.len() > 0 {
                assert(self.stack@.map_values(|t: ResetTask| t@) =~= st.drop_last());
            }
        }
        match top {
            None => {
                self.phase = ResetPhase::Finished;
                ResetStep { logs, request: ResetRequest::Finished }
            },
            Some(ResetTask::List { dir }) => {
                self.phase = ResetPhase::Listing { dir: dir.clone() };
                ResetStep { logs, request: ResetRequest::ListEntries { dir } }
            },
            Some(ResetTask::Visit { entry }) => {
                let path = entry.path.clone();
                self.phase = ResetPhase::Checking { entry };
                ResetStep { logs, request: ResetRequest::CheckMark { path } }
            },
        }
    }

    /// Stops the walk on `error`.
    fn fail(&mut self, error: RunError) -> (s: ResetStep)
        ensures
            final(self).allowlist_glob == old(self).allowlist_glob,
            final(self).allowlist_path == old(self).allowlist_path,
            final(self).dry_run == old(self).dry_run,
            reset_outcome_of(final(self)@, log_views(s.logs@), s.request@) == reset_fail_spec(old(self)@, error@),
    {
        self.phase = ResetPhase::Finished;
        let logs: Vec<LogEvent> = Vec::new();
        assert(log_views(logs@) =~= Seq::<(Seq<char>, Seq<char>)>::empty());
        ResetStep { logs, request: ResetRequest::Failed { error } }
    }

    /// Queues the walk into `e` if it is a directory, then takes up the next task.
    fn after(&mut self, e: &Entry, logs: Vec<LogEvent>) -> (s: ResetStep)
        ensures
            final(self).allowlist_glob == old(self).allowlist_glob,
            final(self).allowlist_path == old(self).allowlist_path,
            final(self).dry_run == old(self).dry_run,
            reset_outcome_of(final(self)@, log_views(s.logs@), s.request@) == reset_advance_spec(
                after_entry(old(self)@.stack, e@),
                log_views(logs@),
            ),
    {
        if e.is_dir && !e.is_symlink {
            let ghost prev = self@.stack;
            self.stack.push(ResetTask::List { dir: e.path.clone() });
            assert(self@.stack =~= prev.push(ResetTaskView::List { dir: e.path@ }));
        }
        self.advance(logs)
    }

    /// Starts the walk: the first request.
    pub fn start(&mut self) -> (s: ResetStep)
        requires
            old(self)@.phase is Idle,
        ensures
            final(self).globs() == old(self).globs(),
            final(self).paths() == old(self).paths(),
            final(self).is_dry_run() == old(self).is_dry_run(),
            reset_outcome_of(final(self)@, log_views(s.logs@), s.request@) == reset_advance_spec(
                old(self)@.stack,
                Seq::empty(),
            ),
    {
        let logs: Vec<LogEvent> = Vec::new();
        assert(log_views(logs@) =~= Seq::<(Seq<char>, Seq<char>)>::empty());
        self.advance(logs)
    }

    /// Goes on from a directory's listing (an error ends the walk): each
    /// entry outside the allowlist has its marker handled, and the walk goes
    /// into every subdirectory.
    pub fn on_entries(&mut self, entries: Result<Vec<Entry>, String>) -> (s: ResetStep)
        requires
            old(self)@.phase is Listing,
        ensures
            final(self).globs() == old(self).globs(),
            final(self).paths() == old(self).paths(),
            final(self).is_dry_run() == old(self).is_dry_run(),
            reset_outcome_of(final(self)@, log_views(s.logs@), s.request@) == reset_entries_spec(
                old(self).globs(),
                old(self).paths(),
                old(self)@,
                crate::engine::entries_result(entries),
            ),
    {
        let dir = match &self.phase {
            ResetPhase::Listing { dir } => dir.clone(),
            _ => String::new(),
        };
        match entries {
            Err(reason) => self.fail(RunError::List { path: dir, reason }),
            Ok(es) => {
                let ghost ev = es@.map_values(|e: Entry| e@);
                let ghost base = self@.stack;
                let ghost g = views(self.allowlist_glob@);
                let ghost p = views(self.allowlist_path@);
                let mut i: usize = es.len();
                assert(base + listing_tasks(g, p, ev, es.len() as int) =~= base);
                while i > 0
                    invariant
                        i <= es@.len(),
                        ev == es@.map_values(|e: Entry| e@),
                        g == views(self.allowlist_glob@),
                        p == views(self.allowlist_path@),
                        self.allowlist_glob == old(self).allowlist_glob,
                        self.allowlist_path == old(self).allowlist_path,
                        self.dry_run == old(self).dry_run,
                        self@.stack == base + listing_tasks(g, p, ev, i as int),
                    decreases i,
                {
                    i = i - 1;
                    let e = &es[i];
                    assert(ev[i as int] == e@);
                    let ghost prev = self@.stack;
                    let keep = TMBliss::reset_keeps(&self.allowlist_glob, &self.allowlist_path, e.path.as_str());
                    if keep {
                        if e.is_dir && !e.is_symlink {
                            self.stack.push(ResetTask::List { dir: e.path.clone() });
                        }
                    } else {
                        self.stack.push(ResetTask::Visit { entry: copy_entry(e) });
                    }
                    proof {
                        assert(self@.stack =~= prev + entry_tasks(g, p, e@));
                        assert(base + listing_tasks(g, p, ev, i as int) =~= base + listing_tasks(g, p, ev, i + 1)
                            + entry_tasks(g, p, ev[i as int]));
                    }
                }
                let logs: Vec<LogEvent> = Vec::new();
                assert(log_views(logs@) =~= Seq::<(Seq<char>, Seq<char>)>::empty());
                self.advance(logs)
            },
        }
    }

    /// Goes on from the marker of the entry being handled.
    pub fn on_mark_checked(&mut self, marked: Result<bool, TimeMachineError>) -> (s: ResetStep)
        requires
            old(self)@.phase is Checking,
        ensures
            final(self).globs() == old(self).globs(),
            final(self).paths() == old(self).paths(),
            final(self).is_dry_run() == old(self).is_dry_run(),
            reset_outcome_of(final(self)@, log_views(s.logs@), s.request@) == reset_checked_spec(
                old(self).is_dry_run(),
                old(self)@,
                crate::engine::mark_result(marked),
            ),
    {
        let e = match &self.phase {
            ResetPhase::Checking { entry } => copy_entry(entry),
            _ => Entry { path: String::new(), is_dir: false, is_symlink: false },
        };
        match marked {
            Err(error) => self.fail(RunError::Marker { path: e.path, error }),
            Ok(false) => {
                let logs: Vec<LogEvent> = Vec::new();
                assert(log_views(logs@) =~= Seq::<(Seq<char>, Seq<char>)>::empty());
                self.after(&e, logs)
            },
            Ok(true) => {
                let mut logs: Vec<LogEvent> = Vec::new();
                proof {
                    reveal_strlit("excluded");
                }
                assert("excluded"@ =~= crate::engine::label_excluded());
                logs.push(LogEvent { label: String::from_str("excluded"), message: e.path.clone() });
                assert(log_views(logs@) =~= seq![(crate::engine::label_excluded(), e.path@)]);
                if self.dry_run {
                    self.after(&e, logs)
                } else {
                    let path = e.path.clone();
                    self.phase = ResetPhase::Clearing { entry: e };
                    ResetStep { logs, request: ResetRequest::ClearMark { path } }
                }
            },
        }
    }

    /// Goes on from an attempt to clear the marker.
    pub fn on_mark_cleared(&mut self, result: Result<(), TimeMachineError>) -> (s: ResetStep)
        requires
            old(self)@.phase is Clearing,
        ensures
            final(self).globs() == old(self).globs(),
            final(self).paths() == old(self).paths(),
            final(self).is_dry_run() == old(self).is_dry_run(),
            reset_outcome_of(final(self)@, log_views(s.logs@), s.request@) == reset_cleared_spec(
                old(self)@,
                crate::engine::set_result(result),
            ),
    {
        let e = match &self.phase {
            ResetPhase::Clearing { entry } => copy_entry(entry),
            _ => Entry { path: String::new(), is_dir: false, is_symlink: false },
        };
        match result {
            Err(error) => self.fail(RunError::Marker { path: e.path, error }),
            Ok(_) => {
                let logs: Vec<LogEvent> = Vec::new();
                assert(log_views(logs@) =~= Seq::<(Seq<char>, Seq<char>)>::empty());
                self.after(&e, logs)
            },
        }
    }
}

} // verus!
