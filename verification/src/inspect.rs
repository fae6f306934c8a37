//! One inspection, step by step.
//!
//! An [`Inspection`] looks at no file and runs no program. It asks the
//! caller to look the path up, then to run the primary backend, and to run
//! the secondary backend only when the primary one failed.

use vstd::prelude::*;
use vstd::string::*;
use crate::backend::{PathKind, Run, ToolRun};
use crate::deps::{dumpbin_deps_for, inspection, objdump_deps_for};
use crate::dumpbin::dumpbin_report;
use crate::error::{outcome_view, BackendError, BackendFault, InspectionError, InspectionFault};
use crate::model::Outcome;
use crate::objdump::objdump_report;
use crate::text::texts;

verus! {

/// A tool that can read a binary.
#[derive(Clone, Copy, Debug, PartialEq, Eq, Structural)]
pub enum Backend {
    Objdump,
    Dumpbin,
}

/// How far an inspection has come.
pub enum Stage {
    /// The path is to be looked up.
    Path,
    /// The primary backend is to be run.
    Primary,
    /// The primary backend failed, for the reason given; the secondary one
    /// is to be run.
    Secondary { primary: BackendFault },
    /// The outcome has been handed out.
    Finished,
}

/// What an inspection asks of its caller, as a mathematical value.
pub enum Ask {
    Look,
    Run { backend: Backend },
    Finish { outcome: Outcome },
    Nothing,
}

/// What an inspection asks of its caller.
#[derive(Debug, PartialEq, Eq)]
pub enum Query {
    /// Find out what is at the path.
    Look,
    /// Run this backend on the file.
    Run { backend: Backend },
    /// The inspection is over, with this outcome.
    Finish { outcome: Result<(String, Vec<String>), InspectionError> },
    /// The inspection was over before.
    Nothing,
}

impl View for Query {
    type V = Ask;

    open spec fn view(&self) -> Ask {
        match self {
            Query::Look => Ask::Look,
            Query::Run { backend } => Ask::Run { backend: *backend },
            Query::Finish { outcome } => Ask::Finish { outcome: outcome_view(*outcome) },
            Query::Nothing => Ask::Nothing,
        }
    }
}

/// What the caller saw, as a mathematical value.
pub enum Seen {
    Kind { kind: PathKind },
    Ran { run: Run },
}

/// What the caller saw.
#[derive(Debug, PartialEq, Eq)]
pub enum Observation {
    /// What is at the path.
    Kind { kind: PathKind },
    /// How the run of the backend ended.
    Ran { run: ToolRun },
}

impl View for Observation {
    type V = Seen;

    open spec fn view(&self) -> Seen {
        match self {
            Observation::Kind { kind } => Seen::Kind { kind: *kind },
            Observation::Ran { run } => Seen::Ran { run: run@ },
        }
    }
}

/// The state of an inspection.
pub struct InspectionModel {
    pub file: Seq<char>,
    pub stage: Stage,
}

/// The state in which the inspection of `file` begins.
pub open spec fn begin(file: Seq<char>) -> InspectionModel {
    InspectionModel { file, stage: Stage::Path }
}

/// What is being asked in state `m`.
pub open spec fn asked(m: InspectionModel) -> Ask {
    match m.stage {
        Stage::Path => Ask::Look,
        Stage::Primary => Ask::Run { backend: Backend::Objdump },
        Stage::Secondary { primary } => Ask::Run { backend: Backend::Dumpbin },
        Stage::Finished => Ask::Nothing,
    }
}

/// The state `m`, finished.
pub open spec fn finished(m: InspectionModel) -> InspectionModel {
    InspectionModel { stage: Stage::Finished, ..m }
}

/// The state that follows `m` and what is asked next, when the caller has
/// seen `seen`. An observation that answers another question than the one
/// asked changes nothing, and the question stands.
pub open spec fn observed(m: InspectionModel, seen: Seen) -> (InspectionModel, Ask) {
    match (m.stage, seen) {
        (Stage::Path, Seen::Kind { kind }) => match kind {
            PathKind::Missing => (finished(m), Ask::Finish { outcome: Err(InspectionFault::NotFound) }),
            PathKind::NotFile => (finished(m), Ask::Finish { outcome: Err(InspectionFault::NotAFile) }),
            PathKind::File => (
                InspectionModel { stage: Stage::Primary, ..m },
                Ask::Run { backend: Backend::Objdump },
            ),
        },
        (Stage::Primary, Seen::Ran { run }) => match objdump_report(m.file, PathKind::File, run) {
            Ok(report) => (finished(m), Ask::Finish { outcome: Ok(report) }),
            Err(primary) => (
                InspectionModel { stage: Stage::Secondary { primary }, ..m },
                Ask::Run { backend: Backend::Dumpbin },
            ),
        },
        (Stage::Secondary { primary }, Seen::Ran { run }) => match dumpbin_report(PathKind::File, run) {
            Ok(report) => (finished(m), Ask::Finish { outcome: Ok(report) }),
            Err(secondary) => (
                finished(m),
                Ask::Finish { outcome: Err(InspectionFault::InspectionFailed { primary, secondary }) },
            ),
        },
        _ => (m, asked(m)),
    }
}

/// The name of the program that is the backend.
pub open spec fn program_name(backend: Backend) -> Seq<char> {
    match backend {
        Backend::Objdump => "objdump"@,
        Backend::Dumpbin => "dumpbin"@,
    }
}

/// The arguments with which the backend is run on `file`.
pub open spec fn arguments_for(backend: Backend, file: Seq<char>) -> Seq<Seq<char>> {
    match backend {
        Backend::Objdump => seq!["-p"@, file],
        Backend::Dumpbin => seq!["/dependents"@, file],
    }
}

impl Backend {
    /// The name of the program to run.
    pub fn program(self) -> (name: String)
        ensures
            name@ == program_name(self),
    {
        match self {
            Backend::Objdump => "objdump".to_owned(),
            Backend::Dumpbin => "dumpbin".to_owned(),
        }
    }

    /// The arguments to run the program with on `file`.
    pub fn arguments(self, file: &str) -> (arguments: Vec<String>)
        ensures
            texts(arguments@) == arguments_for(self, file@),
    {
        let mut arguments: Vec<String> = Vec::new();
        match self {
            Backend::Objdump => arguments.push("-p".to_owned()),
            Backend::Dumpbin => arguments.push("/dependents".to_owned()),
        }
        arguments.push(file.to_owned());
        assert(texts(arguments@) =~= arguments_for(self, file@));
        arguments
    }
}

/// How far an inspection has come, with the primary backend's failure
/// where the secondary one is to be run.
enum Progress {
    Path,
    Primary,
    Secondary { primary: BackendError },
    Finished,
}

/// The inspection of one file.
pub struct Inspection {
    file: String,
    progress: Progress,
}

impl View for Inspection {
    type V = InspectionModel;

    closed spec fn view(&self) -> InspectionModel {
        InspectionModel {
            file: self.file@,
            stage: match self.progress {
                Progress::Path => Stage::Path,
                Progress::Primary => Stage::Primary,
                Progress::Secondary { primary } => Stage::Secondary { primary: primary@ },
                Progress::Finished => Stage::Finished,
            },
        }
    }
}

impl Inspection {
    /// Begins the inspection of `file`. Its first question is what is at the
    /// path.
    pub fn new(file: &str) -> (inspection: Inspection)
        ensures
            inspection@ == begin(file@),
    {
        Inspection { file: file.to_owned(), progress: Progress::Path }
    }

    /// What the inspection asks now. An inspection that is over asks
    /// nothing.
    pub fn question(&self) -> (query: Query)
        ensures
            query@ == asked(self@),
    {
        match &self.progress {
            Progress::Path => Query::Look,
            Progress::Primary => Query::Run { backend: Backend::Objdump },
            Progress::Secondary { primary } => Query::Run { backend: Backend::Dumpbin },
            Progress::Finished => Query::Nothing,
        }
    }

    /// Takes what the caller saw and says what to do next.
    ///
    /// The secondary backend is asked for only after the primary one failed,
    /// and the outcome is handed out once.
    pub fn observe(&mut self, seen: Observation) -> (query: Query)
        ensures
            (final(self)@, query@) == observed(old(self)@, seen@),
    {
        match (&self.progress, seen) {
            (Progress::Path, Observation::Kind { kind }) => match kind {
                PathKind::Missing => {
                    self.progress = Progress::Finished;
                    Query::Finish { outcome: Err(InspectionError::NotFound) }
                },
                PathKind::NotFile => {
                    self.progress = Progress::Finished;
                    Query::Finish { outcome: Err(InspectionError::NotAFile) }
                },
                PathKind::File => {
                    self.progress = Progress::Primary;
                    Query::Run { backend: Backend::Objdump }
                },
            },
            (Progress::Primary, Observation::Ran { run }) => {
                match objdump_deps_for(self.file.as_str(), PathKind::File, &run) {
                    Ok(report) => {
                        self.progress = Progress::Finished;
                        Query::Finish { outcome: Ok(report) }
                    },
                    Err(primary) => {
                        self.progress = Progress::Secondary { primary };
                        Query::Run { backend: Backend::Dumpbin }
                    },
                }
            },
            (Progress::Secondary { primary }, Observation::Ran { run }) => {
                match dumpbin_deps_for(self.file.as_str(), PathKind::File, &run) {
                    Ok(report) => {
                        self.progress = Progress::Finished;
                        Query::Finish { outcome: Ok(report) }
                    },
                    Err(secondary) => {
                        let primary = primary.duplicate();
                        self.progress = Progress::Finished;
                        Query::Finish { outcome: Err(InspectionError::InspectionFailed { primary, secondary }) }
                    },
                }
            },
            _ => self.question(),
        }
    }
}

/// An inspection that is answered truthfully ends with what `inspection`
/// says of the file: it looks the path up, runs the primary backend on a
/// regular file, runs the secondary one only if the primary one failed, and
/// then hands out the outcome.
pub proof fn inspection_ends_as_specified(file: Seq<char>, kind: PathKind, objdump: Run, dumpbin: Run)
    ensures
        ({
            let first = observed(begin(file), Seen::Kind { kind });
            let second = observed(first.0, Seen::Ran { run: objdump });
            let third = observed(second.0, Seen::Ran { run: dumpbin });
            let outcome = inspection(file, kind, objdump, dumpbin);
            if kind != PathKind::File {
                first.1 == (Ask::Finish { outcome })
            } else if objdump_report(file, kind, objdump) is Ok {
                first.1 == (Ask::Run { backend: Backend::Objdump }) && second.1 == (Ask::Finish { outcome })
            } else {
                &&& first.1 == (Ask::Run { backend: Backend::Objdump })
                &&& second.1 == (Ask::Run { backend: Backend::Dumpbin })
                &&& third.1 == (Ask::Finish { outcome })
            }
        }),
{
}

} // verus!
