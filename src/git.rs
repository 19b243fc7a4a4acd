//! Version-control conventions that the scan must respect.
use vstd::prelude::*;
use crate::paths::{ends_with_component, has_last_component};

verus! {

/// Name of the version-control metadata directory.
pub const GIT_DIR: &'static str = ".git";

/// Name of the version-control ignore file.
pub const IGNORE_FILE: &'static str = ".gitignore";

/// `.git`
pub open spec fn git_dir_name() -> Seq<char> {
    seq!['.', 'g', 'i', 't']
}

/// `.gitignore`
pub open spec fn ignore_file_name() -> Seq<char> {
    seq!['.', 'g', 'i', 't', 'i', 'g', 'n', 'o', 'r', 'e']
}

/// `path` is a version-control metadata directory.
pub open spec fn is_git_dir(path: Seq<char>) -> bool {
    ends_with_component(path, git_dir_name())
}

/// A working tree whose ignored paths are listed.
pub struct Git {
    pub path: String,
}

impl Git {
    /// Whether `path` is a version-control metadata directory (`.git`).
    pub fn is_git(path: &str) -> (r: bool)
        ensures
            r == is_git_dir(path@),
    {
        proof {
            reveal_strlit(".git");
        }
        assert(GIT_DIR@ =~= git_dir_name());
        has_last_component(path, GIT_DIR)
    }
}

} // verus!
