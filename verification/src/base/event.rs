//! What a running scan reports to whoever watches it.
use vstd::prelude::*;
use crate::base::types::Finding;
use crate::text::string_from;

verus! {

/// One thing that happened during a scan.
#[derive(Debug, Clone)]
pub enum AppEvent {
    /// A line of output, or a message about the scan.
    Line { tool: String, line: String, kind: String, severity: Option<String> },
    /// A finding was parsed.
    Finding(Finding),
    /// The scan ended, with the report's path if one was written.
    ScanComplete { report_path: Option<String> },
}

impl AppEvent {
    /// A message about the scan from `tool`, with an optional severity.
    pub fn system(tool: &str, line: String, severity: Option<&str>) -> (e: AppEvent)
        ensures
            e matches AppEvent::Line { tool: t, line: l, kind: k, severity: s } && t@ == tool@ && l
                == line && k@ == "system"@ && match severity {
                Some(v) => s is Some && s->0@ == v@,
                None => s is None,
            },
    {
        AppEvent::Line {
            tool: string_from(tool),
            line,
            kind: string_from("system"),
            severity: match severity {
                Some(v) => Some(string_from(v)),
                None => None,
            },
        }
    }

    /// A line that `tool` printed.
    pub fn output(tool: &str, line: String) -> (e: AppEvent)
        ensures
            e matches AppEvent::Line { tool: t, line: l, kind: k, severity: s } && t@ == tool@ && l
                == line && k@ == "output"@ && s is None,
    {
        AppEvent::Line { tool: string_from(tool), line, kind: string_from("output"), severity: None }
    }
}

} // verus!
