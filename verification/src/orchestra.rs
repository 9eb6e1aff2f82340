//! Tool-coordination data: outputs, pattern matches, merge traffic.
//!
//! The orchestrator proper schedules external tools and lives with the
//! process runner; the shapes it trades in — tool outputs, pattern
//! matches, traffic-branch verdicts — are plain data and live here.

use vstd::prelude::*;
use vstd::string::*;

verus! {

/// One place a pattern matched in a file.
pub struct PatternMatch {
    /// The file it matched in.
    pub file: String,
    /// 1-based line.
    pub line: usize,
    /// 1-based column.
    pub col: usize,
    /// The matched text.
    pub text: String,
    /// Captured groups.
    pub captures: Vec<String>,
}

/// What a tool run reported.
pub struct ToolOutput {
    /// Whether the tool succeeded.
    pub success: bool,
    /// Files it modified.
    pub files_modified: Vec<String>,
    /// Files it created.
    pub files_created: Vec<String>,
    /// Files it deleted.
    pub files_deleted: Vec<String>,
    /// Its message.
    pub message: String,
    /// How long it ran, in milliseconds.
    pub duration_ms: u64,
}

impl ToolOutput {
    /// A successful run touching no files.
    pub fn success() -> (r: Self)
        ensures
            r.success,
            r.files_modified@.len() == 0,
            r.files_created@.len() == 0,
            r.files_deleted@.len() == 0,
            r.message@ == "Success"@,
            r.duration_ms == 0,
    {
        ToolOutput {
            success: true,
            files_modified: Vec::new(),
            files_created: Vec::new(),
            files_deleted: Vec::new(),
            message: String::from_str("Success"),
            duration_ms: 0,
        }
    }

    /// A failed run with its message.
    pub fn failure(message: String) -> (r: Self)
        ensures
            !r.success,
            r.files_modified@.len() == 0,
            r.files_created@.len() == 0,
            r.files_deleted@.len() == 0,
            r.message@ == message@,
            r.duration_ms == 0,
    {
        ToolOutput {
            success: false,
            files_modified: Vec::new(),
            files_created: Vec::new(),
            files_deleted: Vec::new(),
            message,
            duration_ms: 0,
        }
    }
}

/// A place where an automatic merge cannot proceed by itself.
pub struct Conflict {
    /// The conflicted file.
    pub path: String,
    /// 1-based line.
    pub line: usize,
    /// Why it conflicts.
    pub reason: String,
}

/// The safety verdict for applying an update.
pub enum TrafficBranch {
    /// Safe to update automatically.
    Green,
    /// Mergeable, with conflicts to report.
    Yellow { conflicts: Vec<Conflict> },
    /// Manual resolution required.
    Red { conflicts: Vec<Conflict> },
}

/// Decides the traffic verdict for a file and whether conflicts still
/// allow an automatic merge.
pub trait TrafficAnalyzer {
    fn analyze(&self, file: &String) -> TrafficBranch;

    fn can_auto_merge(&self, conflicts: &Vec<Conflict>) -> bool;
}

/// The default analyzer: everything is safe, and a merge is automatic
/// exactly when nothing conflicts.
pub struct DefaultTrafficAnalyzer {}

impl TrafficAnalyzer for DefaultTrafficAnalyzer {
    fn analyze(&self, file: &String) -> TrafficBranch {
        TrafficBranch::Green
    }

    fn can_auto_merge(&self, conflicts: &Vec<Conflict>) -> bool {
        conflicts.len() == 0
    }
}

} // verus!
