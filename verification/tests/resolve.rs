use winbundle::bundle::{file_name, plan, Placement};
use winbundle::closure::{inspect, resolve, Binary};
use winbundle::error::{BackendError, InspectionError, ResolveError};
use winbundle::resolver::{Action, ResolvedLibrary, Resolver, Skipped};
use winbundle::search::SearchRoot;

fn strings(items: &[&str]) -> Vec<String> {
    items.iter().map(|s| s.to_string()).collect()
}

fn binary(path: &str, format: &str, imports: &[&str]) -> Binary {
    Binary { path: path.to_string(), format: format.to_string(), imports: strings(imports) }
}

fn library(name: &str, path: &str) -> ResolvedLibrary {
    ResolvedLibrary { name: name.to_string(), path: path.to_string() }
}

fn tree(base: &str) -> SearchRoot {
    SearchRoot::select(base, None)
}

fn report(format: &str, imports: &[&str]) -> Result<(String, Vec<String>), InspectionError> {
    Ok((format.to_string(), strings(imports)))
}

fn asked_path(action: &Action) -> String {
    match action {
        Action::Inspect { path } => path.clone(),
        other => panic!("no inspection asked for: {:?}", other),
    }
}

fn diamond() -> Vec<Binary> {
    vec![
        binary("app.exe", "F", &["A.dll"]),
        binary("/r/A.dll", "F", &["B.dll", "C.dll"]),
        binary("/r/bin/B.dll", "F", &["D.dll"]),
        binary("/r/lib/C.dll", "F", &["D.dll"]),
        binary("/r/D.dll", "F", &[]),
    ]
}

#[test]
fn diamond_resolves_each_name_once() {
    let found = resolve(strings(&["app.exe"]), Vec::new(), tree("/r"), &diamond());
    assert_eq!(
        found,
        Ok(vec![
            library("A.dll", "/r/A.dll"),
            library("B.dll", "/r/bin/B.dll"),
            library("C.dll", "/r/lib/C.dll"),
            library("D.dll", "/r/D.dll"),
        ])
    );
}

#[test]
fn resolving_twice_gives_the_same() {
    let first = resolve(strings(&["app.exe"]), Vec::new(), tree("/r"), &diamond());
    let second = resolve(strings(&["app.exe"]), Vec::new(), tree("/r"), &diamond());
    assert_eq!(first, second);
    assert_eq!(first.map(|found| found.len()), Ok(4));
}

#[test]
fn cycle_ends_without_duplicates() {
    let catalog = vec![
        binary("app.exe", "F", &["A.dll"]),
        binary("/r/A.dll", "F", &["B.dll"]),
        binary("/r/B.dll", "F", &["A.dll"]),
    ];
    assert_eq!(
        resolve(strings(&["app.exe"]), Vec::new(), tree("/r"), &catalog),
        Ok(vec![library("A.dll", "/r/A.dll"), library("B.dll", "/r/B.dll")])
    );
}

#[test]
fn library_that_imports_itself_ends() {
    let catalog = vec![binary("app.exe", "F", &["A.dll", "A.dll"]), binary("/r/A.dll", "F", &["A.dll", "a.DLL"])];
    assert_eq!(
        resolve(strings(&["app.exe"]), Vec::new(), tree("/r"), &catalog),
        Ok(vec![library("A.dll", "/r/A.dll")])
    );
}

#[test]
fn names_that_differ_in_case_are_one_name() {
    let catalog = vec![
        binary("app.exe", "F", &["Foo.dll", "FOO.DLL", "bar.dll"]),
        binary("/r/Foo.dll", "F", &["BAR.dll", "foo.dll"]),
        binary("/r/FOO.DLL", "F", &[]),
        binary("/r/bar.dll", "F", &[]),
        binary("/r/BAR.dll", "F", &[]),
    ];
    assert_eq!(
        resolve(strings(&["app.exe"]), Vec::new(), tree("/r"), &catalog),
        Ok(vec![library("Foo.dll", "/r/Foo.dll"), library("bar.dll", "/r/bar.dll")])
    );
}

#[test]
fn system_libraries_are_left_out() {
    let catalog = vec![
        binary("app.exe", "F", &["KERNEL32.dll", "lib1.dll", "msvcrt.DLL"]),
        binary("/r/lib1.dll", "F", &["Kernel32.DLL", "user32.dll"]),
        binary("/r/KERNEL32.dll", "F", &["hidden.dll"]),
    ];
    assert_eq!(
        resolve(strings(&["app.exe"]), winbundle::names::default_system_libraries(), tree("/r"), &catalog),
        Ok(vec![library("lib1.dll", "/r/lib1.dll")])
    );
}

#[test]
fn system_libraries_are_never_asked_for() {
    let catalog = vec![
        binary("app.exe", "F", &["KERNEL32.dll", "lib1.dll"]),
        binary("/r/lib/lib1.dll", "F", &["Kernel32.DLL", "lib2.dll"]),
        binary("/r/lib2.dll", "F", &["USER32.DLL"]),
    ];
    let mut run = Resolver::new(strings(&["app.exe"]), strings(&["kernel32.dll", "User32.dll"]), tree("/r"));
    let mut action = run.action();
    let mut asked = Vec::new();
    while let Action::Inspect { path } = &action {
        asked.push(path.clone());
        let outcome = inspect(&catalog, path);
        action = run.step(outcome).action;
    }
    assert_eq!(
        asked,
        strings(&["app.exe", "/r/lib1.dll", "/r/bin/lib1.dll", "/r/lib/lib1.dll", "/r/lib2.dll"])
    );
    assert_eq!(
        action,
        Action::Done { libraries: vec![library("lib1.dll", "/r/lib/lib1.dll"), library("lib2.dll", "/r/lib2.dll")] }
    );
}

#[test]
fn second_seed_of_other_format_fails_the_run() {
    let catalog = vec![
        binary("a.exe", "F1", &["lib.dll"]),
        binary("b.exe", "F2", &[]),
        binary("/r/lib.dll", "F1", &[]),
    ];
    assert_eq!(
        resolve(strings(&["a.exe", "b.exe"]), Vec::new(), tree("/r"), &catalog),
        Err(ResolveError::FormatMismatch { found: "F2".to_string(), required: "F1".to_string() })
    );
}

#[test]
fn format_mismatch_comes_before_any_search() {
    let mut run = Resolver::new(strings(&["a.exe", "b.exe"]), Vec::new(), tree("/r"));
    assert_eq!(asked_path(&run.action()), "a.exe");
    let step = run.step(report("F1", &["lib.dll"]));
    assert_eq!(asked_path(&step.action), "b.exe");
    assert_eq!(step.skipped, None);
    let step = run.step(report("F2", &[]));
    assert_eq!(
        step.action,
        Action::Failed { error: ResolveError::FormatMismatch { found: "F2".to_string(), required: "F1".to_string() } }
    );
    let step = run.step(report("F1", &[]));
    assert_eq!(
        step.action,
        Action::Failed { error: ResolveError::FormatMismatch { found: "F2".to_string(), required: "F1".to_string() } }
    );
}

#[test]
fn first_seed_with_a_format_establishes_it() {
    let catalog = vec![
        binary("a.exe", "", &[]),
        binary("b.exe", "F2", &[]),
        binary("c.exe", "F3", &[]),
        binary("d.exe", "F2", &[]),
        binary("e.exe", "", &[]),
    ];
    assert_eq!(resolve(strings(&["a.exe", "b.exe", "d.exe"]), Vec::new(), tree("/r"), &catalog), Ok(Vec::new()));
    assert_eq!(
        resolve(strings(&["a.exe", "b.exe", "c.exe"]), Vec::new(), tree("/r"), &catalog),
        Err(ResolveError::FormatMismatch { found: "F3".to_string(), required: "F2".to_string() })
    );
    assert_eq!(
        resolve(strings(&["b.exe", "e.exe"]), Vec::new(), tree("/r"), &catalog),
        Err(ResolveError::FormatMismatch { found: String::new(), required: "F2".to_string() })
    );
}

#[test]
fn seed_that_cannot_be_inspected_fails_the_run() {
    let catalog = vec![binary("a.exe", "F", &[])];
    assert_eq!(
        resolve(strings(&["a.exe", "gone.exe"]), Vec::new(), tree("/r"), &catalog),
        Err(ResolveError::Inspection { path: "gone.exe".to_string(), error: InspectionError::NotFound })
    );
    let mut run = Resolver::new(strings(&["dir"]), Vec::new(), tree("/r"));
    assert_eq!(
        run.step(Err(InspectionError::NotAFile)).action,
        Action::Failed { error: ResolveError::Inspection { path: "dir".to_string(), error: InspectionError::NotAFile } }
    );
}

#[test]
fn missing_library_fails_the_run() {
    let catalog = vec![binary("A", "F", &["missing.lib"])];
    assert_eq!(
        resolve(strings(&["A"]), Vec::new(), tree("/r"), &catalog),
        Err(ResolveError::UnresolvedDependency { name: "missing.lib".to_string() })
    );
}

#[test]
fn missing_library_fails_the_run_after_others_were_found() {
    let catalog = vec![
        binary("A", "F", &["here.lib", "missing.lib", "later.lib"]),
        binary("/r/here.lib", "F", &[]),
        binary("/r/later.lib", "F", &[]),
    ];
    assert_eq!(
        resolve(strings(&["A"]), Vec::new(), tree("/r"), &catalog),
        Err(ResolveError::UnresolvedDependency { name: "missing.lib".to_string() })
    );
}

#[test]
fn candidate_of_other_format_is_skipped() {
    let catalog = vec![
        binary("app.exe", "F", &["x.dll"]),
        binary("/r/x.dll", "G", &["never.dll"]),
        binary("/r/bin/x.dll", "F", &[]),
    ];
    assert_eq!(
        resolve(strings(&["app.exe"]), Vec::new(), tree("/r"), &catalog),
        Ok(vec![library("x.dll", "/r/bin/x.dll")])
    );
    let mut run = Resolver::new(strings(&["app.exe"]), Vec::new(), tree("/r"));
    let step = run.step(report("F", &["x.dll"]));
    assert_eq!(asked_path(&step.action), "/r/x.dll");
    let step = run.step(report("G", &["never.dll"]));
    assert_eq!(asked_path(&step.action), "/r/bin/x.dll");
    assert_eq!(
        step.skipped,
        Some(Skipped { path: "/r/x.dll".to_string(), found: "G".to_string(), required: "F".to_string() })
    );
    let step = run.step(report("F", &[]));
    assert_eq!(step.skipped, None);
    assert_eq!(step.action, Action::Done { libraries: vec![library("x.dll", "/r/bin/x.dll")] });
}

#[test]
fn candidate_of_other_format_alone_leaves_the_name_unresolved() {
    let catalog = vec![binary("app.exe", "F", &["x.dll"]), binary("/r/lib/x.dll", "f", &[])];
    assert_eq!(
        resolve(strings(&["app.exe"]), Vec::new(), tree("/r"), &catalog),
        Err(ResolveError::UnresolvedDependency { name: "x.dll".to_string() })
    );
}

#[test]
fn candidate_that_cannot_be_inspected_is_passed_over() {
    let mut run = Resolver::new(strings(&["app.exe"]), Vec::new(), tree("/r"));
    run.step(report("F", &["x.dll"]));
    let broken = InspectionError::InspectionFailed {
        primary: BackendError::Exit { code: 1, stderr: "not recognized".to_string() },
        secondary: BackendError::Launch,
    };
    let step = run.step(Err(broken));
    assert_eq!(asked_path(&step.action), "/r/bin/x.dll");
    assert_eq!(step.skipped, None);
    let step = run.step(Err(InspectionError::NotFound));
    assert_eq!(asked_path(&step.action), "/r/lib/x.dll");
    let step = run.step(Err(InspectionError::NotAFile));
    assert_eq!(
        step.action,
        Action::Failed { error: ResolveError::UnresolvedDependency { name: "x.dll".to_string() } }
    );
}

#[test]
fn run_without_format_accepts_only_candidates_without_format() {
    let catalog = vec![
        binary("app.exe", "", &["x.dll"]),
        binary("/r/x.dll", "F", &[]),
        binary("/r/lib/x.dll", "", &[]),
    ];
    assert_eq!(
        resolve(strings(&["app.exe"]), Vec::new(), tree("/r"), &catalog),
        Ok(vec![library("x.dll", "/r/lib/x.dll")])
    );
}

#[test]
fn no_seed_gives_no_library() {
    assert_eq!(resolve(Vec::new(), Vec::new(), tree("/r"), &diamond()), Ok(Vec::new()));
    let run = Resolver::new(Vec::new(), Vec::new(), tree("/r"));
    assert_eq!(run.action(), Action::Done { libraries: Vec::new() });
}

#[test]
fn finished_run_stays_finished() {
    let mut run = Resolver::new(strings(&["app.exe"]), Vec::new(), tree("/r"));
    assert_eq!(run.step(report("F", &[])).action, Action::Done { libraries: Vec::new() });
    assert_eq!(run.step(report("G", &["late.dll"])).action, Action::Done { libraries: Vec::new() });
    assert_eq!(run.action(), Action::Done { libraries: Vec::new() });
}

#[test]
fn libraries_come_in_the_order_of_their_admission() {
    let catalog = vec![
        binary("one.exe", "F", &["c.dll", "a.dll"]),
        binary("two.exe", "F", &["b.dll", "a.dll"]),
        binary("/r/a.dll", "F", &["e.dll"]),
        binary("/r/b.dll", "F", &[]),
        binary("/r/c.dll", "F", &["d.dll"]),
        binary("/r/d.dll", "F", &[]),
        binary("/r/e.dll", "F", &[]),
    ];
    assert_eq!(
        resolve(strings(&["one.exe", "two.exe"]), Vec::new(), tree("/r"), &catalog),
        Ok(vec![
            library("c.dll", "/r/c.dll"),
            library("a.dll", "/r/a.dll"),
            library("b.dll", "/r/b.dll"),
            library("d.dll", "/r/d.dll"),
            library("e.dll", "/r/e.dll"),
        ])
    );
}

#[test]
fn search_path_is_tried_in_order() {
    let catalog = vec![
        binary("app.exe", "F", &["x.dll", "y.dll"]),
        binary("/two/x.dll", "F", &[]),
        binary("/three/x.dll", "F", &[]),
        binary("/one/y.dll", "G", &[]),
        binary("/three/y.dll", "F", &[]),
    ];
    let root = SearchRoot::select("", Some(strings(&["/one", "/two", "/three"])));
    assert_eq!(
        resolve(strings(&["app.exe"]), Vec::new(), root, &catalog),
        Ok(vec![library("x.dll", "/two/x.dll"), library("y.dll", "/three/y.dll")])
    );
}

#[test]
fn empty_search_path_leaves_every_name_unresolved() {
    let catalog = vec![binary("app.exe", "F", &["x.dll"]), binary("x.dll", "F", &[])];
    let root = SearchRoot::select("", Some(Vec::new()));
    assert_eq!(
        resolve(strings(&["app.exe"]), Vec::new(), root, &catalog),
        Err(ResolveError::UnresolvedDependency { name: "x.dll".to_string() })
    );
}

#[test]
fn without_search_path_names_are_taken_as_they_are() {
    let catalog = vec![binary("app.exe", "F", &["x.dll"]), binary("x.dll", "F", &[])];
    assert_eq!(
        resolve(strings(&["app.exe"]), Vec::new(), SearchRoot::select("", None), &catalog),
        Ok(vec![library("x.dll", "x.dll")])
    );
}

#[test]
fn catalog_answers_with_its_first_entry_at_a_path() {
    let catalog = vec![binary("a", "F", &["x"]), binary("b", "G", &[]), binary("a", "H", &["y"])];
    assert_eq!(inspect(&catalog, "a"), report("F", &["x"]));
    assert_eq!(inspect(&catalog, "b"), report("G", &[]));
    assert_eq!(inspect(&catalog, "A"), Err(InspectionError::NotFound));
    assert_eq!(inspect(&Vec::new(), "a"), Err(InspectionError::NotFound));
}

#[test]
fn bundle_of_one_application_and_one_library() {
    let catalog = vec![
        binary("app.exe", "F", &["lib1.dll", "sys1.dll"]),
        binary("root/bin/lib1.dll", "F", &[]),
    ];
    let seeds = strings(&["app.exe"]);
    let found = resolve(strings(&["app.exe"]), strings(&["sys1.dll"]), tree("root"), &catalog);
    assert_eq!(found, Ok(vec![library("lib1.dll", "root/bin/lib1.dll")]));
    let steps = plan(&found.unwrap(), &seeds, "out");
    assert_eq!(
        steps,
        vec![
            Placement { source: "root/bin/lib1.dll".to_string(), target: "out/lib1.dll".to_string(), overwrite: false },
            Placement { source: "app.exe".to_string(), target: "out/app.exe".to_string(), overwrite: true },
        ]
    );
}

#[test]
fn bundle_places_libraries_before_seeds() {
    let found = vec![library("a.dll", "/r/a.dll"), library("b.dll", "/r/lib/b.dll")];
    let steps = plan(&found, &strings(&["build/one.exe", "two.exe"]), "/tmp/out/");
    let targets: Vec<(String, bool)> = steps.into_iter().map(|step| (step.target, step.overwrite)).collect();
    assert_eq!(
        targets,
        vec![
            ("/tmp/out/a.dll".to_string(), false),
            ("/tmp/out/b.dll".to_string(), false),
            ("/tmp/out/one.exe".to_string(), true),
            ("/tmp/out/two.exe".to_string(), true),
        ]
    );
    assert_eq!(plan(&Vec::new(), &Vec::new(), "out"), Vec::new());
}

#[test]
fn file_name_is_what_follows_the_last_separator() {
    assert_eq!(file_name("/opt/x/bin/foo.dll"), "foo.dll");
    assert_eq!(file_name("foo.dll"), "foo.dll");
    assert_eq!(file_name("dir/"), "");
    assert_eq!(file_name(""), "");
    assert_eq!(file_name("/\u{e9}t\u{e9}/b\u{fc}cher.dll"), "b\u{fc}cher.dll");
}
