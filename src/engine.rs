//! The traversal engine: a depth-first walk over the roots, kept as an
//! explicit stack of tasks. The engine never touches the file system or the
//! marker store itself; each call hands back the next request, and the answer
//! to it comes back as the argument of the next call.
use vstd::prelude::*;
use crate::conf::Conf;
use crate::engine_types::{
    Entry, EntryView, LogEvent, Request, RequestView, RunError, RunErrorView, Step, Task, TaskView,
};
use crate::overrides::{override_globs, override_globs_spec, views};
use crate::rules::{candidates_spec, excluded, skip_rule_matches, service_file};
use crate::time_machine::{TimeMachineError, TimeMachineErrorView, message_of};

verus! {

/// `new`: a path that is about to be marked.
pub open spec fn label_new() -> Seq<char> {
    seq!['n', 'e', 'w']
}

/// `excluded`: a path that carries the marker already.
pub open spec fn label_excluded() -> Seq<char> {
    seq!['e', 'x', 'c', 'l', 'u', 'd', 'e', 'd']
}

/// `error_checking`: the marker of a path could not be read.
pub open spec fn label_error_checking() -> Seq<char> {
    seq!['e', 'r', 'r', 'o', 'r', '_', 'c', 'h', 'e', 'c', 'k', 'i', 'n', 'g']
}

/// `error_excluding`: the marker of a path could not be set.
pub open spec fn label_error_excluding() -> Seq<char> {
    seq!['e', 'r', 'r', 'o', 'r', '_', 'e', 'x', 'c', 'l', 'u', 'd', 'i', 'n', 'g']
}

/// The message of an error event: the path, a comma and the reason.
pub open spec fn detail(path: Seq<char>, reason: Seq<char>) -> Seq<char> {
    path + seq![',', ' '] + reason
}

/// What the engine is waiting for.
#[derive(Debug, Clone)]
pub enum Phase {
    /// Not started.
    Idle,
    /// The canonical form of `path`, which is to be decided on.
    Path { path: String },
    /// The marker of `path`, already recorded as visited.
    PathCheck { path: String },
    /// The outcome of setting the marker of `path`.
    PathSet { path: String },
    /// The canonical form of `path`, a directory to scan with skip-globs `local`.
    Dir { path: String, local: Vec<String> },
    /// The override file of directory `path`.
    DirOverride { path: String, local: Vec<String> },
    /// The marker of directory `path`.
    DirCheck { path: String, local: Vec<String> },
    /// The ignored paths below directory `path`.
    DirIgnored { path: String, local: Vec<String> },
    /// The entries of directory `path`.
    DirEntries { path: String, local: Vec<String> },
    /// Nothing: the run is over.
    Finished,
}

/// The mathematical value of a [`Phase`].
pub enum PhaseView {
    Idle,
    Path { path: Seq<char> },
    PathCheck { path: Seq<char> },
    PathSet { path: Seq<char> },
    Dir { path: Seq<char>, local: Seq<Seq<char>> },
    DirOverride { path: Seq<char>, local: Seq<Seq<char>> },
    DirCheck { path: Seq<char>, local: Seq<Seq<char>> },
    DirIgnored { path: Seq<char>, local: Seq<Seq<char>> },
    DirEntries { path: Seq<char>, local: Seq<Seq<char>> },
    Finished,
}

impl View for Phase {
    type V = PhaseView;

    open spec fn view(&self) -> PhaseView {
        match self {
            Phase::Idle => PhaseView::Idle,
            Phase::Path { path } => PhaseView::Path { path: path@ },
            Phase::PathCheck { path } => PhaseView::PathCheck { path: path@ },
            Phase::PathSet { path } => PhaseView::PathSet { path: path@ },
            Phase::Dir { path, local } => PhaseView::Dir { path: path@, local: views(local@) },
            Phase::DirOverride { path, local } => PhaseView::DirOverride {
                path: path@,
                local: views(local@),
            },
            Phase::DirCheck { path, local } => PhaseView::DirCheck { path: path@, local: views(local@) },
            Phase::DirIgnored { path, local } => PhaseView::DirIgnored {
                path: path@,
                local: views(local@),
            },
            Phase::DirEntries { path, local } => PhaseView::DirEntries {
                path: path@,
                local: views(local@),
            },
            Phase::Finished => PhaseView::Finished,
        }
    }
}

/// The state of a run: the paths visited so far, the queued tasks (the last
/// is next) and what the engine waits for.
pub struct EngineView {
    pub processed: Set<Seq<char>>,
    pub stack: Seq<TaskView>,
    pub phase: PhaseView,
}

/// One move of the engine: the state after it, the events it reports and
/// its next request.
pub struct Transition {
    pub state: EngineView,
    pub logs: Seq<(Seq<char>, Seq<char>)>,
    pub request: RequestView,
}

/// The transition that `state` and `step` make up.
pub open spec fn outcome(state: EngineView, step: (Seq<(Seq<char>, Seq<char>)>, RequestView)) -> Transition {
    Transition { state, logs: step.0, request: step.1 }
}

/// Tasks that decide on each of `ps`, queued so that `ps[0]` comes first.
pub open spec fn path_tasks(ps: Seq<Seq<char>>) -> Seq<TaskView> {
    Seq::new(ps.len(), |i: int| TaskView::Path { path: ps[ps.len() - 1 - i] })
}

/// Tasks that scan each of `ps`, queued so that `ps[0]` comes first.
pub open spec fn dir_tasks(ps: Seq<Seq<char>>, local: Seq<Seq<char>>) -> Seq<TaskView> {
    Seq::new(ps.len(), |i: int| TaskView::Directory { path: ps[ps.len() - 1 - i], local })
}

/// The state of a run before it starts: the explicit paths are decided on
/// first, in order, then the roots are scanned, in order.
pub open spec fn initial_spec(conf: &Conf) -> EngineView {
    EngineView {
        processed: Set::empty(),
        stack: dir_tasks(views(conf.paths@), Seq::empty()) + path_tasks(views(conf.exclude_paths@)),
        phase: PhaseView::Idle,
    }
}

/// Taking up the next task: it is removed from the stack and its first
/// request is made; with no task left the run is over.
pub open spec fn advance_spec(processed: Set<Seq<char>>, stack: Seq<TaskView>, logs: Seq<(Seq<char>, Seq<char>)>) -> Transition {
    if stack.len() == 0 {
        Transition {
            state: EngineView { processed, stack, phase: PhaseView::Finished },
            logs,
            request: RequestView::Finished,
        }
    } else {
        let rest = stack.drop_last();
        match stack.last() {
            TaskView::Path { path } => Transition {
                state: EngineView { processed, stack: rest, phase: PhaseView::Path { path } },
                logs,
                request: RequestView::CanonicalizePath(path),
            },
            TaskView::Directory { path, local } => Transition {
                state: EngineView { processed, stack: rest, phase: PhaseView::Dir { path, local } },
                logs,
                request: RequestView::CanonicalizeDirectory(path),
            },
            TaskView::Children { path, local } => Transition {
                state: EngineView { processed, stack: rest, phase: PhaseView::DirEntries { path, local } },
                logs,
                request: RequestView::ListEntries(path),
            },
        }
    }
}

/// Stopping the run on `error`.
pub open spec fn fail_spec(v: EngineView, error: RunErrorView) -> Transition {
    Transition {
        state: EngineView { processed: v.processed, stack: v.stack, phase: PhaseView::Finished },
        logs: Seq::empty(),
        request: RequestView::Failed(error),
    }
}

/// Waiting for `request` in `phase`.
pub open spec fn wait_spec(v: EngineView, processed: Set<Seq<char>>, phase: PhaseView, request: RequestView) -> Transition {
    Transition {
        state: EngineView { processed, stack: v.stack, phase },
        logs: Seq::empty(),
        request,
    }
}

/// A path to decide on has been resolved (or not): a path seen before is left
/// alone; a new one is recorded as visited before its marker is read.
pub open spec fn process_spec(conf: &Conf, v: EngineView, canonical: Result<Seq<char>, Seq<char>>) -> Transition {
    let path = v.phase->Path_path;
    match canonical {
        Err(reason) => if conf.skip_errors {
            advance_spec(v.processed, v.stack, seq![(label_error_checking(), detail(path, reason))])
        } else {
            fail_spec(v, RunErrorView::Canonicalize { path, reason })
        },
        Ok(c) => if v.processed.contains(c) {
            advance_spec(v.processed, v.stack, Seq::empty())
        } else {
            wait_spec(v, v.processed.insert(c), PhaseView::PathCheck { path: c }, RequestView::CheckMark(c))
        },
    }
}

/// The marker of the path or directory being handled has been read. Where
/// it cannot be read, the run stops, or with `skip_errors` the failure is
/// reported and the path (for a directory: its whole subtree) is left.
pub open spec fn mark_checked_spec(conf: &Conf, v: EngineView, marked: Result<bool, TimeMachineErrorView>) -> Transition {
    match v.phase {
        PhaseView::PathCheck { path } => match marked {
            Ok(true) => advance_spec(v.processed, v.stack, seq![(label_excluded(), path)]),
            Ok(false) => if conf.dry_run {
                advance_spec(v.processed, v.stack, seq![(label_new(), path)])
            } else {
                Transition {
                    state: EngineView {
                        processed: v.processed,
                        stack: v.stack,
                        phase: PhaseView::PathSet { path },
                    },
                    logs: seq![(label_new(), path)],
                    request: RequestView::SetMark(path),
                }
            },
            Err(e) => if conf.skip_errors {
                advance_spec(v.processed, v.stack, seq![(label_error_checking(), detail(path, message_of(e)))])
            } else {
                fail_spec(v, RunErrorView::Marker { path, error: e })
            },
        },
        PhaseView::DirCheck { path, local } => match marked {
            Ok(true) => advance_spec(v.processed.insert(path), v.stack, seq![(label_excluded(), path)]),
            Ok(false) => wait_spec(
                v,
                v.processed,
                PhaseView::DirIgnored { path, local },
                RequestView::ListIgnored(path),
            ),
            Err(e) => if conf.skip_errors {
                advance_spec(v.processed, v.stack, seq![(label_error_checking(), detail(path, message_of(e)))])
            } else {
                fail_spec(v, RunErrorView::Marker { path, error: e })
            },
        },
        _ => fail_spec(v, RunErrorView::Marker { path: Seq::empty(), error: TimeMachineErrorView::FileNotFound }),
    }
}

/// Setting the marker has been tried.
pub open spec fn mark_set_spec(conf: &Conf, v: EngineView, result: Result<(), TimeMachineErrorView>) -> Transition {
    let path = v.phase->PathSet_path;
    match result {
        Ok(_) => advance_spec(v.processed, v.stack, Seq::empty()),
        Err(e) => if conf.skip_errors {
            advance_spec(v.processed, v.stack, seq![(label_error_excluding(), detail(path, message_of(e)))])
        } else {
            fail_spec(v, RunErrorView::Marker { path, error: e })
        },
    }
}

/// A directory to scan has been resolved (or not, which ends the run).
pub open spec fn process_directory_spec(v: EngineView, canonical: Result<Seq<char>, Seq<char>>) -> Transition {
    let path = v.phase->Dir_path;
    let local = v.phase->Dir_local;
    match canonical {
        Err(reason) => fail_spec(v, RunErrorView::Canonicalize { path, reason }),
        Ok(d) => wait_spec(v, v.processed, PhaseView::DirOverride { path: d, local }, RequestView::ReadOverride(d)),
    }
}

/// The skip-globs in force in directory `dir`: those inherited, then those of
/// its override file.
pub open spec fn effective_local(local: Seq<Seq<char>>, dir: Seq<char>, content: Option<Seq<char>>) -> Seq<Seq<char>> {
    match content {
        Some(t) => local + override_globs_spec(dir, t),
        None => local,
    }
}

/// The override file has been read: an excluded directory is recorded and
/// left, any other has its marker read.
pub open spec fn override_spec(conf: &Conf, v: EngineView, content: Option<Seq<char>>) -> Transition {
    let dir = v.phase->DirOverride_path;
    let local = effective_local(v.phase->DirOverride_local, dir, content);
    if excluded(conf, local, v.processed, dir) {
        advance_spec(v.processed.insert(dir), v.stack, Seq::empty())
    } else {
        wait_spec(v, v.processed, PhaseView::DirCheck { path: dir, local }, RequestView::CheckMark(dir))
    }
}

/// The ignored paths below the directory are known: its candidates are
/// decided on first, in order, then its subdirectories are listed.
pub open spec fn ignored_spec(conf: &Conf, v: EngineView, raw: Option<Seq<String>>) -> Transition {
    let dir = v.phase->DirIgnored_path;
    let local = v.phase->DirIgnored_local;
    let stack = v.stack.push(TaskView::Children { path: dir, local }) + path_tasks(
        candidates_spec(conf, local, dir, raw),
    );
    advance_spec(v.processed, stack, Seq::empty())
}

/// An entry is scanned as a subdirectory: a directory, not a link, and not
/// excluded.
pub open spec fn entry_scanned(conf: &Conf, local: Seq<Seq<char>>, processed: Set<Seq<char>>, e: EntryView) -> bool {
    e.is_dir && !e.is_symlink && !excluded(conf, local, processed, e.path)
}

/// The scan tasks for the first `n` entries, each pushed in turn.
pub open spec fn subdir_tasks(conf: &Conf, local: Seq<Seq<char>>, processed: Set<Seq<char>>, es: Seq<EntryView>, n: int) -> Seq<TaskView>
    decreases n,
{
    if n <= 0 {
        Seq::empty()
    } else if entry_scanned(conf, local, processed, es[n - 1]) {
        subdir_tasks(conf, local, processed, es, n - 1).push(
            TaskView::Directory { path: es[n - 1].path, local },
        )
    } else {
        subdir_tasks(conf, local, processed, es, n - 1)
    }
}

/// The directory has been listed (or not, which ends the run): its
/// subdirectories are queued, with its skip-globs.
pub open spec fn entries_spec(conf: &Conf, v: EngineView, entries: Result<Seq<EntryView>, Seq<char>>) -> Transition {
    let dir = v.phase->DirEntries_path;
    let local = v.phase->DirEntries_local;
    match entries {
        Err(reason) => fail_spec(v, RunErrorView::List { path: dir, reason }),
        Ok(es) => advance_spec(
            v.processed,
            v.stack + subdir_tasks(conf, local, v.processed, es, es.len() as int),
            Seq::empty(),
        ),
    }
}

/// The value of a resolution answer.
pub open spec fn text_result(r: Result<String, String>) -> Result<Seq<char>, Seq<char>> {
    match r {
        Ok(s) => Ok(s@),
        Err(e) => Err(e@),
    }
}

/// The value of a marker read.
pub open spec fn mark_result(r: Result<bool, TimeMachineError>) -> Result<bool, TimeMachineErrorView> {
    match r {
        Ok(b) => Ok(b),
        Err(e) => Err(e@),
    }
}

/// The value of a marker write.
pub open spec fn set_result(r: Result<(), TimeMachineError>) -> Result<(), TimeMachineErrorView> {
    match r {
        Ok(_) => Ok(()),
        Err(e) => Err(e@),
    }
}

/// The value of an override file's content, if any.
pub open spec fn text_option(r: Option<String>) -> Option<Seq<char>> {
    match r {
        Some(s) => Some(s@),
        None => None,
    }
}

/// The value of an ignore-provider answer.
pub open spec fn list_option(r: Option<Vec<String>>) -> Option<Seq<String>> {
    match r {
        Some(v) => Some(v@),
        None => None,
    }
}

/// The value of a directory listing.
pub open spec fn entries_result(r: Result<Vec<Entry>, String>) -> Result<Seq<EntryView>, Seq<char>> {
    match r {
        Ok(es) => Ok(es@.map_values(|e: Entry| e@)),
        Err(e) => Err(e@),
    }
}

/// A run of the marking walk over a set of roots.
pub struct TMBliss {
    conf: Conf,
    processed: Vec<String>,
    stack: Vec<Task>,
    phase: Phase,
}

/// The views of a sequence of log events.
pub open spec fn log_views(logs: Seq<LogEvent>) -> Seq<(Seq<char>, Seq<char>)> {
    logs.map_values(|l: LogEvent| l@)
}

impl View for TMBliss {
    type V = EngineView;

    closed spec fn view(&self) -> EngineView {
        EngineView {
            processed: Set::new(
                |p: Seq<char>| exists|i: int| 0 <= i < self.processed@.len() && #[trigger] self.processed@[i]@ == p,
            ),
            stack: self.stack@.map_values(|t: Task| t@),
            phase: self.phase@,
        }
    }
}

/// A copy of `v`.
pub(crate) fn copy_strings(v: &Vec<String>) -> (r: Vec<String>)
    ensures
        r@ == v@,
{
    let mut r: Vec<String> = Vec::new();
    let mut i: usize = 0;
    while i < v.len()
        invariant
            i <= v@.len(),
            r@ == v@.subrange(0, i as int),
        decreases v.len() - i,
    {
        r.push(v[i].clone());
        assert(r@ =~= v@.subrange(0, i + 1));
        i = i + 1;
    }
    assert(v@.subrange(0, v@.len() as int) =~= v@);
    r
}

/// The message of an error event.
fn detail_text(path: &str, reason: &str) -> (r: String)
    ensures
        r@ == detail(path@, reason@),
{
    let mut r = String::from_str(path);
    r.append(", ");
    r.append(reason);
    proof {
        reveal_strlit(", ");
    }
    assert(r@ =~= detail(path@, reason@));
    r
}

/// One event to report.
fn one_log(label: &str, message: String) -> (r: Vec<LogEvent>)
    ensures
        log_views(r@) == seq![(label@, message@)],
{
    let mut r: Vec<LogEvent> = Vec::new();
    r.push(LogEvent { label: String::from_str(label), message });
    assert(log_views(r@) =~= seq![(label@, message@)]);
    r
}

/// No event to report.
fn no_logs() -> (r: Vec<LogEvent>)
    ensures
        log_views(r@) == Seq::<(Seq<char>, Seq<char>)>::empty(),
{
    let r: Vec<LogEvent> = Vec::new();
    assert(log_views(r@) =~= Seq::<(Seq<char>, Seq<char>)>::empty());
    r
}

impl TMBliss {
    /// The rules of this run.
    pub closed spec fn conf_spec(&self) -> Conf {
        self.conf
    }

    /// A run over `conf`, not started yet.
    pub fn new(conf: Conf) -> (r: TMBliss)
        ensures
            r@ == initial_spec(&conf),
            r.conf_spec() == conf,
    {
        let mut stack: Vec<Task> = Vec::new();
        let mut i: usize = conf.paths.len();
        let ghost roots = views(conf.paths@);
        while i > 0
            invariant
                i <= conf.paths@.len(),
                roots == views(conf.paths@),
                stack@.map_values(|t: Task| t@) == dir_tasks(roots.subrange(i as int, roots.len() as int), Seq::empty()),
            decreases i,
        {
            i = i - 1;
            let none: Vec<String> = Vec::new();
            assert(views(none@) =~= Seq::<Seq<char>>::empty());
            let ghost prev = stack@.map_values(|t: Task| t@);
            let ghost old_tail = roots.subrange(i + 1, roots.len() as int);
            stack.push(Task::Directory { path: conf.paths[i].clone(), local: none });
            proof {
                let tail = roots.subrange(i as int, roots.len() as int);
                let cur = stack@.map_values(|t: Task| t@);
                assert(prev == dir_tasks(old_tail, Seq::empty()));
                assert(prev.len() == old_tail.len());
                assert(cur.len() == prev.len() + 1);
                assert(cur.len() == tail.len());
                assert forall|k: int| 0 <= k < cur.len() implies cur[k] == dir_tasks(tail, Seq::empty())[k] by {
                    if k < cur.len() - 1 {
                        assert(cur[k] == prev[k]);
                    } else {
                        assert(roots[i as int] == conf.paths@[i as int]@);
                    }
                }
                assert(cur =~= dir_tasks(tail, Seq::empty()));
            }
        }
        let ghost base = stack@.map_values(|t: Task| t@);
        assert(roots.subrange(0, roots.len() as int) =~= roots);
        let mut j: usize = conf.exclude_paths.len();
        let ghost explicit = views(conf.exclude_paths@);
        while j > 0
            invariant
                j <= conf.exclude_paths@.len(),
                explicit == views(conf.exclude_paths@),
                base == dir_tasks(roots, Seq::empty()),
                stack@.map_values(|t: Task| t@) == base + path_tasks(explicit.subrange(j as int, explicit.len() as int)),
            decreases j,
        {
            j = j - 1;
            let ghost prev = stack@.map_values(|t: Task| t@);
            let ghost old_tail = explicit.subrange(j + 1, explicit.len() as int);
            stack.push(Task::Path { path: conf.exclude_paths[j].clone() });
            proof {
                let tail = explicit.subrange(j as int, explicit.len() as int);
                let cur = stack@.map_values(|t: Task| t@);
                let want = base + path_tasks(tail);
                assert(prev == base + path_tasks(old_tail));
                assert(prev.len() == base.len() + old_tail.len());
                assert(tail.len() == old_tail.len() + 1);
                assert(cur.len() == prev.len() + 1);
                assert(cur.len() == want.len());
                assert forall|k: int| 0 <= k < cur.len() implies cur[k] == want[k] by {
                    if k < cur.len() - 1 {
                        assert(cur[k] == prev[k]);
                    } else {
                        assert(explicit[j as int] == conf.exclude_paths@[j as int]@);
                    }
                }
                assert(cur =~= want);
            }
        }
        assert(explicit.subrange(0, explicit.len() as int) =~= explicit);
        let r = TMBliss { conf, processed: Vec::new(), stack, phase: Phase::Idle };
        assert(r@.processed =~= Set::<Seq<char>>::empty());
        r
    }

    /// Takes up the next task.
    fn advance(&mut self, logs: Vec<LogEvent>) -> (s: Step)
        ensures
            final(self).conf == old(self).conf,
            outcome(final(self)@, s@) == advance_spec(old(self)@.processed, old(self)@.stack, log_views(logs@)),
    {
        let ghost st = old(self)@.stack;
        let top = self.stack.pop();
        proof {
            if st.len() > 0 {
                assert(self.stack@.map_values(|t: Task| t@) =~= st.drop_last());
            }
        }
        match top {
            None => {
                self.phase = Phase::Finished;
                Step { logs, request: Request::Finished }
            },
            Some(Task::Path { path }) => {
                self.phase = Phase::Path { path: path.clone() };
                Step { logs, request: Request::CanonicalizePath { path } }
            },
            Some(Task::Directory { path, local }) => {
                self.phase = Phase::Dir { path: path.clone(), local };
                Step { logs, request: Request::CanonicalizeDirectory { path } }
            },
            Some(Task::Children { path, local }) => {
                self.phase = Phase::DirEntries { path: path.clone(), local };
                Step { logs, request: Request::ListEntries { dir: path } }
            },
        }
    }

    /// Whether `p` has been visited in this run.
    fn visited(&self, p: &str) -> (r: bool)
        ensures
            r == self@.processed.contains(p@),
    {
        let mut i: usize = 0;
        while i < self.processed.len()
            invariant
                i <= self.processed@.len(),
                forall|k: int| 0 <= k < i ==> #[trigger] self.processed@[k]@ != p@,
            decreases self.processed.len() - i,
        {
            if crate::paths::equal_at_whole(self.processed[i].as_str(), p) {
                return true;
            }
            i = i + 1;
        }
        false
    }

    /// Records `p` as visited.
    fn record(&mut self, p: String)
        ensures
            final(self)@.processed == old(self)@.processed.insert(p@),
            final(self)@.stack == old(self)@.stack,
            final(self).phase == old(self).phase,
            final(self).stack == old(self).stack,
            final(self).conf == old(self).conf,
    {
        let ghost before = old(self)@.processed;
        let ghost pv = p@;
        self.processed.push(p);
        proof {
            let n = self.processed@.len();
            assert(self.processed@[n - 1]@ == pv);
            assert forall|q: Seq<char>| #[trigger] self@.processed.contains(q) == before.insert(pv).contains(q) by {
                if before.contains(q) {
                    let i = choose|i: int| 0 <= i < old(self).processed@.len() && #[trigger] old(self).processed@[i]@ == q;
                    assert(self.processed@[i]@ == q);
                }
                if self@.processed.contains(q) {
                    let i = choose|i: int| 0 <= i < self.processed@.len() && #[trigger] self.processed@[i]@ == q;
                    if i < n - 1 {
                        assert(old(self).processed@[i]@ == q);
                    }
                }
            }
            assert(self@.processed =~= before.insert(pv));
        }
    }

    /// Stops the run on `error`.
    fn fail(&mut self, error: RunError) -> (s: Step)
        ensures
            final(self).conf == old(self).conf,
            outcome(final(self)@, s@) == fail_spec(old(self)@, error@),
    {
        self.phase = Phase::Finished;
        let logs = no_logs();
        Step { logs, request: Request::Failed { error } }
    }

    /// Starts the run: the first request.
    pub fn start(&mut self) -> (s: Step)
        requires
            old(self)@.phase is Idle,
        ensures
            final(self).conf_spec() == old(self).conf_spec(),
            outcome(final(self)@, s@) == advance_spec(old(self)@.processed, old(self)@.stack, Seq::empty()),
    {
        let logs = no_logs();
        self.advance(logs)
    }

    /// Decides on a path, given its canonical form or why it has none: a path
    /// seen before in this run is left alone, a new one is recorded as visited
    /// and its marker is read.
    pub fn process(&mut self, canonical: Result<String, String>) -> (s: Step)
        requires
            old(self)@.phase is Path,
        ensures
            final(self).conf_spec() == old(self).conf_spec(),
            outcome(final(self)@, s@) == process_spec(&old(self).conf_spec(), old(self)@, text_result(canonical)),
    {
        let path = match &self.phase {
            Phase::Path { path } => path.clone(),
            _ => String::new(),
        };
        match canonical {
            Err(reason) => {
                if self.conf.skip_errors {
                    let logs = one_log("error_checking", detail_text(path.as_str(), reason.as_str()));
                    proof {
                        reveal_strlit("error_checking");
                    }
                    assert("error_checking"@ =~= label_error_checking());
                    self.advance(logs)
                } else {
                    self.fail(RunError::Canonicalize { path, reason })
                }
            },
            Ok(c) => {
                if self.visited(c.as_str()) {
                    let logs = no_logs();
                    self.advance(logs)
                } else {
                    let c2 = c.clone();
                    self.record(c);
                    self.phase = Phase::PathCheck { path: c2.clone() };
                    let logs = no_logs();
                    Step { logs, request: Request::CheckMark { path: c2 } }
                }
            },
        }
    }

    /// Goes on from the marker of the path or directory being handled.
    pub fn on_mark_checked(&mut self, marked: Result<bool, TimeMachineError>) -> (s: Step)
        requires
            old(self)@.phase is PathCheck || old(self)@.phase is DirCheck,
        ensures
            final(self).conf_spec() == old(self).conf_spec(),
            outcome(final(self)@, s@) == mark_checked_spec(&old(self).conf_spec(), old(self)@, mark_result(marked)),
    {
        proof {
            reveal_strlit("excluded");
            reveal_strlit("new");
            reveal_strlit("error_checking");
        }
        assert("excluded"@ =~= label_excluded());
        assert("new"@ =~= label_new());
        assert("error_checking"@ =~= label_error_checking());
        let is_path = match &self.phase {
            Phase::PathCheck { .. } => true,
            _ => false,
        };
        let (path, local) = match &self.phase {
            Phase::PathCheck { path } => (path.clone(), Vec::new()),
            Phase::DirCheck { path, local } => (path.clone(), copy_strings(local)),
            _ => (String::new(), Vec::new()),
        };
        if is_path {
            match marked {
                Ok(true) => {
                    let logs = one_log("excluded", path);
                    self.advance(logs)
                },
                Ok(false) => {
                    if self.conf.dry_run {
                        let logs = one_log("new", path);
                        self.advance(logs)
                    } else {
                        let logs = one_log("new", path.clone());
                        self.phase = Phase::PathSet { path: path.clone() };
                        Step { logs, request: Request::SetMark { path } }
                    }
                },
                Err(e) => {
                    if self.conf.skip_errors {
                        let m = e.message();
                        let logs = one_log("error_checking", detail_text(path.as_str(), m.as_str()));
                        self.advance(logs)
                    } else {
                        self.fail(RunError::Marker { path, error: e })
                    }
                },
            }
        } else {
            match marked {
                Ok(true) => {
                    let logs = one_log("excluded", path.clone());
                    self.record(path);
                    self.advance(logs)
                },
                Ok(false) => {
                    self.phase = Phase::DirIgnored { path: path.clone(), local };
                    let logs = no_logs();
                    Step { logs, request: Request::ListIgnored { dir: path } }
                },
                Err(e) => {
                    if self.conf.skip_errors {
                        let m = e.message();
                        let logs = one_log("error_checking", detail_text(path.as_str(), m.as_str()));
                        self.advance(logs)
                    } else {
                        self.fail(RunError::Marker { path, error: e })
                    }
                },
            }
        }
    }

    /// Goes on from an attempt to set the marker.
    pub fn on_mark_set(&mut self, result: Result<(), TimeMachineError>) -> (s: Step)
        requires
            old(self)@.phase is PathSet,
        ensures
            final(self).conf_spec() == old(self).conf_spec(),
            outcome(final(self)@, s@) == mark_set_spec(&old(self).conf_spec(), old(self)@, set_result(result)),
    {
        let path = match &self.phase {
            Phase::PathSet { path } => path.clone(),
            _ => String::new(),
        };
        match result {
            Ok(_) => {
                let logs = no_logs();
                self.advance(logs)
            },
            Err(e) => {
                if self.conf.skip_errors {
                    let m = e.message();
                    let logs = one_log("error_excluding", detail_text(path.as_str(), m.as_str()));
                    proof {
                        reveal_strlit("error_excluding");
                    }
                    assert("error_excluding"@ =~= label_error_excluding());
                    self.advance(logs)
                } else {
                    self.fail(RunError::Marker { path, error: e })
                }
            },
        }
    }

    /// Goes on with a directory to scan, given its canonical form or why it
    /// has none (which ends the run).
    pub fn process_directory(&mut self, canonical: Result<String, String>) -> (s: Step)
        requires
            old(self)@.phase is Dir,
        ensures
            final(self).conf_spec() == old(self).conf_spec(),
            outcome(final(self)@, s@) == process_directory_spec(old(self)@, text_result(canonical)),
    {
        let (path, local) = match &self.phase {
            Phase::Dir { path, local } => (path.clone(), copy_strings(local)),
            _ => (String::new(), Vec::new()),
        };
        match canonical {
            Err(reason) => self.fail(RunError::Canonicalize { path, reason }),
            Ok(d) => {
                self.phase = Phase::DirOverride { path: d.clone(), local };
                let logs = no_logs();
                Step { logs, request: Request::ReadOverride { dir: d } }
            },
        }
    }

    /// Goes on from the directory's override file (`None` where it has none):
    /// an excluded directory is recorded and left, any other has its marker read.
    pub fn on_override(&mut self, content: Option<String>) -> (s: Step)
        requires
            old(self)@.phase is DirOverride,
        ensures
            final(self).conf_spec() == old(self).conf_spec(),
            outcome(final(self)@, s@) == override_spec(&old(self).conf_spec(), old(self)@, text_option(content)),
    {
        let (path, local) = match &self.phase {
            Phase::DirOverride { path, local } => (path.clone(), copy_strings(local)),
            _ => (String::new(), Vec::new()),
        };
        let mut local = local;
        let ghost inherited = views(local@);
        match &content {
            Some(t) => {
                let mut extra = override_globs(path.as_str(), t.as_str());
                let ghost ev = views(extra@);
                local.append(&mut extra);
                assert(views(local@) =~= inherited + ev);
            },
            None => {},
        }
        if self.visited(path.as_str()) || service_file(path.as_str()) || skip_rule_matches(
            &self.conf,
            &local,
            path.as_str(),
        ) {
            self.record(path);
            let logs = no_logs();
            self.advance(logs)
        } else {
            self.phase = Phase::DirCheck { path: path.clone(), local };
            let logs = no_logs();
            Step { logs, request: Request::CheckMark { path } }
        }
    }

    /// Goes on from the ignore provider's answer for the directory (`None`
    /// where the lookup failed): its candidates are decided on first, in
    /// order, then its subdirectories are listed.
    pub fn on_ignored(&mut self, raw: Option<Vec<String>>) -> (s: Step)
        requires
            old(self)@.phase is DirIgnored,
        ensures
            final(self).conf_spec() == old(self).conf_spec(),
            outcome(final(self)@, s@) == ignored_spec(&old(self).conf_spec(), old(self)@, list_option(raw)),
    {
        let (path, local) = match &self.phase {
            Phase::DirIgnored { path, local } => (path.clone(), copy_strings(local)),
            _ => (String::new(), Vec::new()),
        };
        let ghost dv = old(self)@.phase->DirIgnored_path;
        let ghost lv = old(self)@.phase->DirIgnored_local;
        assert(path@ == dv && views(local@) == lv);
        let cands = TMBliss::get_git_excludes(&self.conf, &local, path.as_str(), &raw);
        let ghost cv = views(cands@);
        assert(cv == candidates_spec(&old(self).conf_spec(), lv, dv, list_option(raw)));
        self.stack.push(Task::Children { path, local });
        let ghost base = self@.stack;
        assert(base =~= old(self)@.stack.push(TaskView::Children { path: dv, local: lv }));
        let ghost processed = self@.processed;
        assert(cv.subrange(cv.len() as int, cv.len() as int) =~= Seq::<Seq<char>>::empty());
        assert(base + path_tasks(Seq::empty()) =~= base);
        let mut i: usize = cands.len();
        while i > 0
            invariant
                i <= cands@.len(),
                cv == views(cands@),
                self.conf == old(self).conf,
                self@.processed == processed,
                self@.stack == base + path_tasks(cv.subrange(i as int, cv.len() as int)),
            decreases i,
        {
            i = i - 1;
            let ghost prev = self@.stack;
            let ghost old_tail = cv.subrange(i + 1, cv.len() as int);
            self.stack.push(Task::Path { path: cands[i].clone() });
            proof {
                let tail = cv.subrange(i as int, cv.len() as int);
                let cur = self@.stack;
                let want = base + path_tasks(tail);
                assert(prev.len() == base.len() + old_tail.len());
                assert(cur.len() == prev.len() + 1);
                assert(cur.len() == want.len());
                assert forall|k: int| 0 <= k < cur.len() implies cur[k] == want[k] by {
                    if k < cur.len() - 1 {
                        assert(cur[k] == prev[k]);
                    } else {
                        assert(cv[i as int] == cands@[i as int]@);
                    }
                }
                assert(cur =~= want);
                assert(self@.processed =~= processed);
            }
        }
        assert(cv.subrange(0, cv.len() as int) =~= cv);
        let logs = no_logs();
        self.advance(logs)
    }

    /// Goes on from the directory's listing (an error ends the run): its
    /// subdirectories that are not excluded are queued, with its skip-globs.
    pub fn on_entries(&mut self, entries: Result<Vec<Entry>, String>) -> (s: Step)
        requires
            old(self)@.phase is DirEntries,
        ensures
            final(self).conf_spec() == old(self).conf_spec(),
            outcome(final(self)@, s@) == entries_spec(&old(self).conf_spec(), old(self)@, entries_result(entries)),
    {
        let (path, local) = match &self.phase {
            Phase::DirEntries { path, local } => (path.clone(), copy_strings(local)),
            _ => (String::new(), Vec::new()),
        };
        match entries {
            Err(reason) => self.fail(RunError::List { path, reason }),
            Ok(es) => {
                let ghost ev = es@.map_values(|e: Entry| e@);
                let ghost base = self@.stack;
                let ghost processed = self@.processed;
                let ghost lv = views(local@);
                assert(base + subdir_tasks(&self.conf, lv, processed, ev, 0) =~= base);
                let mut i: usize = 0;
                while i < es.len()
                    invariant
                        i <= es@.len(),
                        ev == es@.map_values(|e: Entry| e@),
                        lv == views(local@),
                        self.conf == old(self).conf,
                        self@.processed == processed,
                        self@.stack == base + subdir_tasks(&self.conf, lv, processed, ev, i as int),
                    decreases es.len() - i,
                {
                    let e = &es[i];
                    assert(ev[i as int] == e@);
                    if e.is_dir && !e.is_symlink && !(self.visited(e.path.as_str()) || service_file(
                        e.path.as_str(),
                    ) || skip_rule_matches(&self.conf, &local, e.path.as_str())) {
                        let ghost prev = self@.stack;
                        let l = copy_strings(&local);
                        self.stack.push(Task::Directory { path: e.path.clone(), local: l });
                        proof {
                            assert(self@.stack =~= prev.push(TaskView::Directory { path: e.path@, local: lv }));
                            assert(self@.processed =~= processed);
                        }
                    }
                    i = i + 1;
                }
                assert(ev.len() == es@.len());
                let logs = no_logs();
                self.advance(logs)
            },
        }
    }
}

} // verus!
