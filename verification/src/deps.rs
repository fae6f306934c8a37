//! What an inspection reports of a binary: its format tag and the names of
//! the libraries it imports.
//!
//! Two backends can read a binary. `objdump` is the primary one; `dumpbin`
//! stands in when `objdump` fails, and tells no format.

use vstd::prelude::*;
use vstd::string::*;
use crate::backend::{refusal, report_view, PathKind, Run, ToolRun};
use crate::dumpbin::dumpbin_report;
use crate::error::{outcome_view, BackendError, InspectionError, InspectionFault};
use crate::model::Outcome;
use crate::objdump::objdump_report;

verus! {

/// What inspecting `file` yields, given what was found at the path and how
/// a run of each backend on it ends. A path that holds no regular file is
/// refused before any backend counts; else the primary backend's report is
/// taken, else the secondary's; when both fail, the error keeps both
/// failures.
pub open spec fn inspection(file: Seq<char>, kind: PathKind, objdump: Run, dumpbin: Run) -> Outcome {
    match kind {
        PathKind::Missing => Err(InspectionFault::NotFound),
        PathKind::NotFile => Err(InspectionFault::NotAFile),
        PathKind::File => match objdump_report(file, kind, objdump) {
            Ok(report) => Ok(report),
            Err(primary) => match dumpbin_report(kind, dumpbin) {
                Ok(report) => Ok(report),
                Err(secondary) => Err(InspectionFault::InspectionFailed { primary, secondary }),
            },
        },
    }
}

/// Reports the format tag and the imported names of `file` from a run of
/// `objdump -p` on it.
///
/// `kind` is what was found at the path and `run` how the tool's run ended.
/// There is a report exactly when the path holds a regular file and the
/// tool started and succeeded; otherwise the first of these that failed is
/// the error.
pub fn objdump_deps_for(file: &str, kind: PathKind, run: &ToolRun) -> (report: Result<
    (String, Vec<String>),
    BackendError,
>)
    ensures
        report_view(report) == objdump_report(file@, kind, run@),
{
    crate::objdump::deps(file, kind, run)
}

/// Reports the imported names of `file` from a run of `dumpbin /dependents`
/// on it, with an empty format tag.
///
/// `kind` is what was found at the path and `run` how the tool's run ended.
/// There is a report exactly when the path holds a regular file and the
/// tool started and succeeded; otherwise the first of these that failed is
/// the error.
pub fn dumpbin_deps_for(file: &str, kind: PathKind, run: &ToolRun) -> (report: Result<
    (String, Vec<String>),
    BackendError,
>)
    ensures
        report_view(report) == dumpbin_report(kind, run@),
{
    match refusal(kind, run) {
        Some(error) => Err(error),
        None => match run {
            ToolRun::Exited { success, code, stdout, stderr } => Ok(
                (String::new(), crate::dumpbin::read_listing(stdout.as_str())),
            ),
            ToolRun::NotStarted => Err(BackendError::Launch),
        },
    }
}

/// Finds the format tag and the imported names of `file`.
///
/// `kind` is what was found at the path; `objdump` and `dumpbin` are how a
/// run of each backend on the file ended. The primary backend's report is
/// returned when it has one, else the secondary's. The call fails with
/// `NotFound` or `NotAFile` exactly when the path holds no regular file, and
/// with `InspectionFailed` exactly when it does and both backends failed.
pub fn deps_for(file: &str, kind: PathKind, objdump: &ToolRun, dumpbin: &ToolRun) -> (outcome: Result<
    (String, Vec<String>),
    InspectionError,
>)
    ensures
        outcome_view(outcome) == inspection(file@, kind, objdump@, dumpbin@),
{
    match kind {
        PathKind::Missing => Err(InspectionError::NotFound),
        PathKind::NotFile => Err(InspectionError::NotAFile),
        PathKind::File => match objdump_deps_for(file, kind, objdump) {
            Ok(report) => Ok(report),
            Err(primary) => match dumpbin_deps_for(file, kind, dumpbin) {
                Ok(report) => Ok(report),
                Err(secondary) => Err(InspectionError::InspectionFailed { primary, secondary }),
            },
        },
    }
}

} // verus!
