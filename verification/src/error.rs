//! The ways in which inspection and resolution fail.

use vstd::prelude::*;

verus! {

/// Why one inspection backend produced no report, as a mathematical value.
pub enum BackendFault {
    NotFound,
    NotAFile,
    Launch,
    Exit { code: i32, stderr: Seq<char> },
}

/// Why one inspection backend produced no report.
#[derive(Debug, PartialEq, Eq)]
pub enum BackendError {
    /// The path does not exist or cannot be opened.
    NotFound,
    /// The path exists but is not a regular file.
    NotAFile,
    /// The backend's program could not be started.
    Launch,
    /// The backend's program ran and reported failure.
    Exit { code: i32, stderr: String },
}

impl View for BackendError {
    type V = BackendFault;

    open spec fn view(&self) -> BackendFault {
        match self {
            BackendError::NotFound => BackendFault::NotFound,
            BackendError::NotAFile => BackendFault::NotAFile,
            BackendError::Launch => BackendFault::Launch,
            BackendError::Exit { code, stderr } => BackendFault::Exit { code: *code, stderr: stderr@ },
        }
    }
}

impl BackendError {
    /// A copy of this error.
    pub fn duplicate(&self) -> (copy: BackendError)
        ensures
            copy@ == self@,
    {
        match self {
            BackendError::NotFound => BackendError::NotFound,
            BackendError::NotAFile => BackendError::NotAFile,
            BackendError::Launch => BackendError::Launch,
            BackendError::Exit { code, stderr } => BackendError::Exit { code: *code, stderr: stderr.clone() },
        }
    }
}

/// Why a file could not be inspected, as a mathematical value.
pub enum InspectionFault {
    NotFound,
    NotAFile,
    InspectionFailed { primary: BackendFault, secondary: BackendFault },
}

/// Why a file could not be inspected.
#[derive(Debug, PartialEq, Eq)]
pub enum InspectionError {
    /// The path does not exist or cannot be opened.
    NotFound,
    /// The path exists but is not a regular file.
    NotAFile,
    /// Every backend failed on the file; the failure of each is kept.
    InspectionFailed { primary: BackendError, secondary: BackendError },
}

impl View for InspectionError {
    type V = InspectionFault;

    open spec fn view(&self) -> InspectionFault {
        match self {
            InspectionError::NotFound => InspectionFault::NotFound,
            InspectionError::NotAFile => InspectionFault::NotAFile,
            InspectionError::InspectionFailed { primary, secondary } => InspectionFault::InspectionFailed {
                primary: primary@,
                secondary: secondary@,
            },
        }
    }
}

impl InspectionError {
    /// A copy of this error.
    pub fn duplicate(&self) -> (copy: InspectionError)
        ensures
            copy@ == self@,
    {
        match self {
            InspectionError::NotFound => InspectionError::NotFound,
            InspectionError::NotAFile => InspectionError::NotAFile,
            InspectionError::InspectionFailed { primary, secondary } => InspectionError::InspectionFailed {
                primary: primary.duplicate(),
                secondary: secondary.duplicate(),
            },
        }
    }
}

/// Why a resolution run failed, as a mathematical value.
pub enum ResolveFault {
    Inspection { path: Seq<char>, fault: InspectionFault },
    FormatMismatch { found: Seq<char>, required: Seq<char> },
    UnresolvedDependency { name: Seq<char> },
}

/// Why a resolution run failed.
#[derive(Debug, PartialEq, Eq)]
pub enum ResolveError {
    /// A seed artifact could not be inspected.
    Inspection { path: String, error: InspectionError },
    /// A seed artifact reports another format than the run's.
    FormatMismatch { found: String, required: String },
    /// No candidate path holds an acceptable file for the name.
    UnresolvedDependency { name: String },
}

impl View for ResolveError {
    type V = ResolveFault;

    open spec fn view(&self) -> ResolveFault {
        match self {
            ResolveError::Inspection { path, error } => ResolveFault::Inspection { path: path@, fault: error@ },
            ResolveError::FormatMismatch { found, required } => ResolveFault::FormatMismatch {
                found: found@,
                required: required@,
            },
            ResolveError::UnresolvedDependency { name } => ResolveFault::UnresolvedDependency { name: name@ },
        }
    }
}

impl ResolveError {
    /// A copy of this error.
    pub fn duplicate(&self) -> (copy: ResolveError)
        ensures
            copy@ == self@,
    {
        match self {
            ResolveError::Inspection { path, error } => ResolveError::Inspection {
                path: path.clone(),
                error: error.duplicate(),
            },
            ResolveError::FormatMismatch { found, required } => ResolveError::FormatMismatch {
                found: found.clone(),
                required: required.clone(),
            },
            ResolveError::UnresolvedDependency { name } => ResolveError::UnresolvedDependency {
                name: name.clone(),
            },
        }
    }
}

/// The exit code with which a program reports that the output directory
/// could not be made or a file could not be copied.
pub const OUTPUT_FAILURE_CODE: u8 = 7;

/// The exit code with which a program reports a failed run: one code for
/// each kind of failure.
pub open spec fn exit_code_of(fault: ResolveFault) -> u8 {
    match fault {
        ResolveFault::Inspection { path, fault } => match fault {
            InspectionFault::NotFound => 2u8,
            InspectionFault::NotAFile => 3u8,
            InspectionFault::InspectionFailed { primary, secondary } => 4u8,
        },
        ResolveFault::FormatMismatch { found, required } => 5u8,
        ResolveFault::UnresolvedDependency { name } => 6u8,
    }
}

impl ResolveError {
    /// The exit code with which a program reports this failure. It is never
    /// 0, and differs from the code for a failure to write the output.
    pub fn exit_code(&self) -> (code: u8)
        ensures
            code == exit_code_of(self@),
            2 <= code <= 6,
    {
        match self {
            ResolveError::Inspection { path, error } => match error {
                InspectionError::NotFound => 2,
                InspectionError::NotAFile => 3,
                InspectionError::InspectionFailed { primary, secondary } => 4,
            },
            ResolveError::FormatMismatch { found, required } => 5,
            ResolveError::UnresolvedDependency { name } => 6,
        }
    }
}

/// What an inspection hands back: the format tag and the imported names of
/// the file, or the reason why there is none.
pub open spec fn outcome_view(outcome: Result<(String, Vec<String>), InspectionError>) -> Result<
    (Seq<char>, Seq<Seq<char>>),
    InspectionFault,
> {
    match outcome {
        Ok((format, imports)) => Ok((format@, crate::text::texts(imports@))),
        Err(error) => Err(error@),
    }
}

} // verus!
