//! Decides which files and directories under a set of roots carry the
//! "exclude from backup" marker, by reconciling version-control ignores,
//! per-directory override files and caller-supplied allow and skip rules.
pub mod args;
pub mod conf;
pub mod engine;
pub mod engine_types;
pub mod git;
pub mod laws;
pub mod logger;
pub mod overrides;
pub mod paths;
pub mod reset;
pub mod rules;
pub mod time_machine;

pub use crate::args::{Args, Command};
pub use crate::conf::Conf;
pub use crate::engine::TMBliss;
pub use crate::engine_types::{Entry, LogEvent, Request, RunError, Step};
pub use crate::git::Git;
pub use crate::logger::{LogFilter, Logger};
pub use crate::reset::{Reset, ResetRequest, ResetStep};
pub use crate::time_machine::{TimeMachine, TimeMachineError};
