//! What the caller observes of a file and of an inspection tool run on it.
//!
//! The library runs no program and reads no file. The caller looks the path
//! up, runs the tool, and hands over what it saw as plain values.

use vstd::prelude::*;
use vstd::string::*;
use crate::error::{BackendError, BackendFault};
use crate::text::texts;

verus! {

/// What was found at a path.
#[derive(Clone, Copy, Debug, PartialEq, Eq, Structural)]
pub enum PathKind {
    /// Nothing is there, or it cannot be opened.
    Missing,
    /// Something is there that is not a regular file.
    NotFile,
    /// A regular file.
    File,
}

/// How the run of a tool ended, as a mathematical value.
pub enum Run {
    NotStarted,
    Exited { success: bool, code: i32, stdout: Seq<char>, stderr: Seq<char> },
}

/// How the run of a tool ended.
#[derive(Debug, PartialEq, Eq)]
pub enum ToolRun {
    /// The program could not be started.
    NotStarted,
    /// The program ran to its end. `code` is its exit code, -1 when it has
    /// none; the two streams are given as text.
    Exited { success: bool, code: i32, stdout: String, stderr: String },
}

impl View for ToolRun {
    type V = Run;

    open spec fn view(&self) -> Run {
        match self {
            ToolRun::NotStarted => Run::NotStarted,
            ToolRun::Exited { success, code, stdout, stderr } => Run::Exited {
                success: *success,
                code: *code,
                stdout: stdout@,
                stderr: stderr@,
            },
        }
    }
}

/// What one backend reports of a file: format tag and imported names.
pub type Report = Result<(Seq<char>, Seq<Seq<char>>), BackendFault>;

/// The view of a backend's report.
pub open spec fn report_view(report: Result<(String, Vec<String>), BackendError>) -> Report {
    match report {
        Ok((format, imports)) => Ok((format@, texts(imports@))),
        Err(error) => Err(error@),
    }
}

/// The text that a tool wrote about a path, or why there is none: the path
/// must hold a regular file, and the tool must have started and succeeded.
pub open spec fn listing_of(kind: PathKind, run: Run) -> Result<Seq<char>, BackendFault> {
    match kind {
        PathKind::Missing => Err(BackendFault::NotFound),
        PathKind::NotFile => Err(BackendFault::NotAFile),
        PathKind::File => match run {
            Run::NotStarted => Err(BackendFault::Launch),
            Run::Exited { success, code, stdout, stderr } => if success {
                Ok(stdout)
            } else {
                Err(BackendFault::Exit { code, stderr })
            },
        },
    }
}

/// Why the tool's output cannot be used, if it cannot.
pub fn refusal(kind: PathKind, run: &ToolRun) -> (error: Option<BackendError>)
    ensures
        match error {
            Some(e) => listing_of(kind, run@) == Err::<Seq<char>, BackendFault>(e@),
            None => listing_of(kind, run@) is Ok,
        },
{
    match kind {
        PathKind::Missing => Some(BackendError::NotFound),
        PathKind::NotFile => Some(BackendError::NotAFile),
        PathKind::File => match run {
            ToolRun::NotStarted => Some(BackendError::Launch),
            ToolRun::Exited { success, code, stdout, stderr } => if *success {
                None
            } else {
                Some(BackendError::Exit { code: *code, stderr: stderr.clone() })
            },
        },
    }
}

} // verus!
