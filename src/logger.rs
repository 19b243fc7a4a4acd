//! Which reported events are shown, and how.
use vstd::prelude::*;
use crate::engine::label_excluded;
use crate::engine_types::LogEvent;

verus! {

/// Which events are shown.
#[derive(Debug, Clone, Copy, PartialEq, Eq)]
pub enum LogFilter {
    /// Every event.
    All,
    /// Only paths that carry the marker already, as a long-running service
    /// reports them.
    ExcludedOnly,
}

/// Shows reported events, one line each.
#[derive(Debug, Clone, Copy)]
pub struct Logger {
    pub filter: LogFilter,
}

/// The line shown for an event: the label, a colon and the message.
pub open spec fn line_of(label: Seq<char>, message: Seq<char>) -> Seq<char> {
    label + seq![':', ' '] + message
}

impl Logger {
    /// Whether an event with `label` is shown.
    pub fn shows(&self, label: &str) -> (r: bool)
        ensures
            r == (self.filter == LogFilter::All || label@ == label_excluded()),
    {
        proof {
            reveal_strlit("excluded");
        }
        assert("excluded"@ =~= label_excluded());
        match self.filter {
            LogFilter::All => true,
            LogFilter::ExcludedOnly => crate::paths::equal_at_whole(label, "excluded"),
        }
    }

    /// The line to show for `event`, or `None` where the filter hides it.
    pub fn line(&self, event: &LogEvent) -> (r: Option<String>)
        ensures
            match r {
                Some(s) => (self.filter == LogFilter::All || event.label@ == label_excluded()) && s@
                    == line_of(event.label@, event.message@),
                None => !(self.filter == LogFilter::All || event.label@ == label_excluded()),
            },
    {
        if !self.shows(event.label.as_str()) {
            return None;
        }
        let mut s = event.label.clone();
        s.append(": ");
        s.append(event.message.as_str());
        proof {
            reveal_strlit(": ");
        }
        assert(s@ =~= line_of(event.label@, event.message@));
        Some(s)
    }
}

} // verus!
