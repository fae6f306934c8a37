use winbundle::backend::{PathKind, ToolRun};
use winbundle::error::{BackendError, InspectionError};
use winbundle::inspect::{Backend, Inspection, Observation, Query};

fn strings(items: &[&str]) -> Vec<String> {
    items.iter().map(|s| s.to_string()).collect()
}

fn ran(stdout: &str) -> Observation {
    Observation::Ran {
        run: ToolRun::Exited { success: true, code: 0, stdout: stdout.to_string(), stderr: String::new() },
    }
}

fn failed(code: i32, stderr: &str) -> Observation {
    Observation::Ran {
        run: ToolRun::Exited { success: false, code, stdout: String::new(), stderr: stderr.to_string() },
    }
}

fn kind(kind: PathKind) -> Observation {
    Observation::Kind { kind }
}

#[test]
fn inspection_looks_then_runs_the_primary_backend() {
    let mut inspection = Inspection::new("app.exe");
    assert_eq!(inspection.question(), Query::Look);
    assert_eq!(inspection.observe(kind(PathKind::File)), Query::Run { backend: Backend::Objdump });
    assert_eq!(inspection.question(), Query::Run { backend: Backend::Objdump });
    assert_eq!(
        inspection.observe(ran("app.exe: file format pei-i386\n DLL Name: a.dll\n")),
        Query::Finish { outcome: Ok(("pei-i386".to_string(), strings(&["a.dll"]))) }
    );
    assert_eq!(inspection.question(), Query::Nothing);
    assert_eq!(inspection.observe(ran("    late.dll\n")), Query::Nothing);
}

#[test]
fn inspection_refuses_what_is_no_file_without_running_a_backend() {
    let mut inspection = Inspection::new("gone");
    assert_eq!(
        inspection.observe(kind(PathKind::Missing)),
        Query::Finish { outcome: Err(InspectionError::NotFound) }
    );
    assert_eq!(inspection.question(), Query::Nothing);
    let mut inspection = Inspection::new("dir");
    assert_eq!(
        inspection.observe(kind(PathKind::NotFile)),
        Query::Finish { outcome: Err(InspectionError::NotAFile) }
    );
}

#[test]
fn inspection_falls_back_when_the_primary_backend_fails() {
    let mut inspection = Inspection::new("app.exe");
    inspection.observe(kind(PathKind::File));
    assert_eq!(inspection.observe(failed(1, "bad")), Query::Run { backend: Backend::Dumpbin });
    assert_eq!(
        inspection.observe(ran("    a.dll\n")),
        Query::Finish { outcome: Ok((String::new(), strings(&["a.dll"]))) }
    );
}

#[test]
fn inspection_falls_back_when_the_primary_backend_does_not_start() {
    let mut inspection = Inspection::new("app.exe");
    inspection.observe(kind(PathKind::File));
    assert_eq!(
        inspection.observe(Observation::Ran { run: ToolRun::NotStarted }),
        Query::Run { backend: Backend::Dumpbin }
    );
    assert_eq!(
        inspection.observe(Observation::Ran { run: ToolRun::NotStarted }),
        Query::Finish {
            outcome: Err(InspectionError::InspectionFailed {
                primary: BackendError::Launch,
                secondary: BackendError::Launch,
            })
        }
    );
}

#[test]
fn inspection_that_fails_twice_keeps_the_primary_failure() {
    let mut inspection = Inspection::new("app.exe");
    inspection.observe(kind(PathKind::File));
    inspection.observe(failed(2, "first"));
    assert_eq!(
        inspection.observe(failed(3, "second")),
        Query::Finish {
            outcome: Err(InspectionError::InspectionFailed {
                primary: BackendError::Exit { code: 2, stderr: "first".to_string() },
                secondary: BackendError::Exit { code: 3, stderr: "second".to_string() },
            })
        }
    );
}

#[test]
fn observation_that_answers_nothing_asked_changes_nothing() {
    let mut inspection = Inspection::new("app.exe");
    assert_eq!(inspection.observe(ran("app.exe: x\n")), Query::Look);
    assert_eq!(inspection.observe(kind(PathKind::File)), Query::Run { backend: Backend::Objdump });
    assert_eq!(inspection.observe(kind(PathKind::Missing)), Query::Run { backend: Backend::Objdump });
    assert_eq!(
        inspection.observe(ran("app.exe: x\n")),
        Query::Finish { outcome: Ok(("x".to_string(), Vec::new())) }
    );
}

#[test]
fn backends_are_run_as_the_tools_expect() {
    assert_eq!(Backend::Objdump.program(), "objdump");
    assert_eq!(Backend::Objdump.arguments("a b.exe"), strings(&["-p", "a b.exe"]));
    assert_eq!(Backend::Dumpbin.program(), "dumpbin");
    assert_eq!(Backend::Dumpbin.arguments("app.exe"), strings(&["/dependents", "app.exe"]));
}
