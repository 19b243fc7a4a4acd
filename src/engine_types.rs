//! The vocabulary between the traversal engine and the code that performs
//! its requests: what the engine asks for, what it is told back, and what it
//! reports.
use vstd::prelude::*;
use crate::overrides::views;
use crate::time_machine::{TimeMachineError, TimeMachineErrorView};

verus! {

/// One entry of a directory listing.
#[derive(Debug, Clone, PartialEq)]
pub struct Entry {
    pub path: String,
    pub is_dir: bool,
    pub is_symlink: bool,
}

/// The mathematical value of an [`Entry`].
pub struct EntryView {
    pub path: Seq<char>,
    pub is_dir: bool,
    pub is_symlink: bool,
}

impl View for Entry {
    type V = EntryView;

    open spec fn view(&self) -> EntryView {
        EntryView { path: self.path@, is_dir: self.is_dir, is_symlink: self.is_symlink }
    }
}

/// A reported event: a label (`new`, `excluded`, `error_checking`,
/// `error_excluding`) and a message.
#[derive(Debug, Clone, PartialEq)]
pub struct LogEvent {
    pub label: String,
    pub message: String,
}

impl View for LogEvent {
    type V = (Seq<char>, Seq<char>);

    open spec fn view(&self) -> (Seq<char>, Seq<char>) {
        (self.label@, self.message@)
    }
}

/// Why a run stopped.
#[derive(Debug, Clone, PartialEq)]
pub enum RunError {
    /// A path could not be resolved to its canonical form.
    Canonicalize { path: String, reason: String },
    /// The marker of a path could not be read or set.
    Marker { path: String, error: TimeMachineError },
    /// A directory could not be listed.
    List { path: String, reason: String },
}

/// The mathematical value of a [`RunError`].
pub enum RunErrorView {
    Canonicalize { path: Seq<char>, reason: Seq<char> },
    Marker { path: Seq<char>, error: TimeMachineErrorView },
    List { path: Seq<char>, reason: Seq<char> },
}

impl View for RunError {
    type V = RunErrorView;

    open spec fn view(&self) -> RunErrorView {
        match self {
            RunError::Canonicalize { path, reason } => RunErrorView::Canonicalize {
                path: path@,
                reason: reason@,
            },
            RunError::Marker { path, error } => RunErrorView::Marker { path: path@, error: error@ },
            RunError::List { path, reason } => RunErrorView::List { path: path@, reason: reason@ },
        }
    }
}

/// What the engine asks to be done next. Each request but the last two is
/// answered by one call on the engine.
#[derive(Debug, Clone, PartialEq)]
pub enum Request {
    /// Resolve a path that is to be decided on; answer with `process`.
    CanonicalizePath { path: String },
    /// Resolve a directory that is to be scanned; answer with `process_directory`.
    CanonicalizeDirectory { path: String },
    /// Read the directory's override file, if there is one; answer with `on_override`.
    ReadOverride { dir: String },
    /// Read the marker of a path; answer with `on_mark_checked`.
    CheckMark { path: String },
    /// Set the marker of a path; answer with `on_mark_set`.
    SetMark { path: String },
    /// List the version-control-ignored paths below a directory; answer with `on_ignored`.
    ListIgnored { dir: String },
    /// List a directory's entries; answer with `on_entries`.
    ListEntries { dir: String },
    /// The run is over.
    Finished,
    /// The run stopped on an error.
    Failed { error: RunError },
}

/// The mathematical value of a [`Request`].
pub enum RequestView {
    CanonicalizePath(Seq<char>),
    CanonicalizeDirectory(Seq<char>),
    ReadOverride(Seq<char>),
    CheckMark(Seq<char>),
    SetMark(Seq<char>),
    ListIgnored(Seq<char>),
    ListEntries(Seq<char>),
    Finished,
    Failed(RunErrorView),
}

impl View for Request {
    type V = RequestView;

    open spec fn view(&self) -> RequestView {
        match self {
            Request::CanonicalizePath { path } => RequestView::CanonicalizePath(path@),
            Request::CanonicalizeDirectory { path } => RequestView::CanonicalizeDirectory(path@),
            Request::ReadOverride { dir } => RequestView::ReadOverride(dir@),
            Request::CheckMark { path } => RequestView::CheckMark(path@),
            Request::SetMark { path } => RequestView::SetMark(path@),
            Request::ListIgnored { dir } => RequestView::ListIgnored(dir@),
            Request::ListEntries { dir } => RequestView::ListEntries(dir@),
            Request::Finished => RequestView::Finished,
            Request::Failed { error } => RequestView::Failed(error@),
        }
    }
}

/// What one call on the engine hands back: events to report, in order, and
/// the next request.
#[derive(Debug, Clone, PartialEq)]
pub struct Step {
    pub logs: Vec<LogEvent>,
    pub request: Request,
}

impl View for Step {
    type V = (Seq<(Seq<char>, Seq<char>)>, RequestView);

    open spec fn view(&self) -> (Seq<(Seq<char>, Seq<char>)>, RequestView) {
        (self.logs@.map_values(|l: LogEvent| l@), self.request@)
    }
}

/// Work that is queued for the engine.
#[derive(Debug, Clone, PartialEq)]
pub enum Task {
    /// Decide on one path: mark it unless it is marked already.
    Path { path: String },
    /// Scan a directory, with the override-derived skip-globs inherited from above.
    Directory { path: String, local: Vec<String> },
    /// Queue the subdirectories of a scanned directory, with its skip-globs.
    Children { path: String, local: Vec<String> },
}

/// The mathematical value of a [`Task`].
pub enum TaskView {
    Path { path: Seq<char> },
    Directory { path: Seq<char>, local: Seq<Seq<char>> },
    Children { path: Seq<char>, local: Seq<Seq<char>> },
}

impl View for Task {
    type V = TaskView;

    open spec fn view(&self) -> TaskView {
        match self {
            Task::Path { path } => TaskView::Path { path: path@ },
            Task::Directory { path, local } => TaskView::Directory { path: path@, local: views(local@) },
            Task::Children { path, local } => TaskView::Children { path: path@, local: views(local@) },
        }
    }
}

} // verus!
