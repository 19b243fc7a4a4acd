//! The caller's rules for one run.
use vstd::prelude::*;
use crate::args::{Command, CommandView};
use crate::engine::copy_strings;
use crate::overrides::views;

verus! {

/// What one run is asked to do: the roots to scan and the rules that decide
/// which paths under them get the marker.
#[derive(Debug, Clone)]
pub struct Conf {
    /// Root directories to scan.
    pub paths: Vec<String>,
    /// Globs of paths that are never marked; their contents are still scanned.
    pub allowlist_glob: Vec<String>,
    /// Paths whose whole subtree is never marked; it is still scanned.
    pub allowlist_path: Vec<String>,
    /// Globs of paths that are neither marked nor scanned.
    pub skip_glob: Vec<String>,
    /// Paths whose whole subtree is neither marked nor scanned.
    pub skip_path: Vec<String>,
    /// Report what would be marked without marking it.
    pub dry_run: bool,
    /// Report a failed marker operation and go on, instead of stopping.
    pub skip_errors: bool,
    /// Paths that are marked before any directory is scanned.
    pub exclude_paths: Vec<String>,
}

impl Default for Conf {
    /// No roots and no rules, as a dry run.
    fn default() -> (r: Conf)
        ensures
            r.paths@.len() == 0,
            r.allowlist_glob@.len() == 0,
            r.allowlist_path@.len() == 0,
            r.skip_glob@.len() == 0,
            r.skip_path@.len() == 0,
            r.dry_run,
            !r.skip_errors,
            r.exclude_paths@.len() == 0,
    {
        Conf {
            paths: Vec::new(),
            allowlist_glob: Vec::new(),
            allowlist_path: Vec::new(),
            skip_glob: Vec::new(),
            skip_path: Vec::new(),
            dry_run: true,
            skip_errors: false,
            exclude_paths: Vec::new(),
        }
    }
}

/// The rules that a `run` command line (`list`: as a dry run) gives.
pub open spec fn conf_of_command(c: CommandView, r: Conf) -> bool {
    match c {
        CommandView::Run {
            path,
            dry_run,
            allowlist_glob,
            allowlist_path,
            skip_glob,
            skip_path,
            skip_errors,
            exclude_path,
        } => views(r.paths@) == path && r.dry_run == dry_run && views(r.allowlist_glob@)
            == allowlist_glob && views(r.allowlist_path@) == allowlist_path && views(r.skip_glob@)
            == skip_glob && views(r.skip_path@) == skip_path && r.skip_errors == skip_errors && views(
            r.exclude_paths@,
        ) == exclude_path,
        CommandView::List {
            path,
            allowlist_glob,
            allowlist_path,
            skip_glob,
            skip_path,
            skip_errors,
            exclude_path,
        } => views(r.paths@) == path && r.dry_run && views(r.allowlist_glob@) == allowlist_glob
            && views(r.allowlist_path@) == allowlist_path && views(r.skip_glob@) == skip_glob && views(
            r.skip_path@,
        ) == skip_path && r.skip_errors == skip_errors && views(r.exclude_paths@) == exclude_path,
        _ => false,
    }
}

impl Conf {
    /// The rules of a `run` or `list` command line; `None` for the other
    /// commands, which read their rules elsewhere or need none.
    pub fn from_command(c: &Command) -> (r: Option<Conf>)
        ensures
            match r {
                Some(conf) => conf_of_command(c@, conf),
                None => !(c@ is Run || c@ is List),
            },
    {
        match c {
            Command::Run {
                path,
                dry_run,
                allowlist_glob,
                allowlist_path,
                skip_glob,
                skip_path,
                skip_errors,
                exclude_path,
            } => Some(
                Conf {
                    paths: copy_strings(path),
                    allowlist_glob: copy_strings(allowlist_glob),
                    allowlist_path: copy_strings(allowlist_path),
                    skip_glob: copy_strings(skip_glob),
                    skip_path: copy_strings(skip_path),
                    dry_run: *dry_run,
                    skip_errors: *skip_errors,
                    exclude_paths: copy_strings(exclude_path),
                },
            ),
            Command::List {
                path,
                allowlist_glob,
                allowlist_path,
                skip_glob,
                skip_path,
                skip_errors,
                exclude_path,
            } => Some(
                Conf {
                    paths: copy_strings(path),
                    allowlist_glob: copy_strings(allowlist_glob),
                    allowlist_path: copy_strings(allowlist_path),
                    skip_glob: copy_strings(skip_glob),
                    skip_path: copy_strings(skip_path),
                    dry_run: true,
                    skip_errors: *skip_errors,
                    exclude_paths: copy_strings(exclude_path),
                },
            ),
            _ => None,
        }
    }

    /// These rules, with the dry-run setting replaced where one is given.
    pub fn with_dry_run(self, dry_run: Option<bool>) -> (r: Conf)
        ensures
            r.dry_run == match dry_run {
                Some(d) => d,
                None => self.dry_run,
            },
            r.paths == self.paths,
            r.allowlist_glob == self.allowlist_glob,
            r.allowlist_path == self.allowlist_path,
            r.skip_glob == self.skip_glob,
            r.skip_path == self.skip_path,
            r.skip_errors == self.skip_errors,
            r.exclude_paths == self.exclude_paths,
    {
        let mut c = self;
        match dry_run {
            Some(d) => {
                c.dry_run = d;
            },
            None => {},
        }
        c
    }
}

} // verus!
