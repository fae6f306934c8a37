use winbundle::backend::{PathKind, ToolRun};
use winbundle::deps::{deps_for, dumpbin_deps_for, objdump_deps_for};
use winbundle::error::{BackendError, InspectionError};
use winbundle::objdump::deps;
use winbundle::text::{find_in_window, find_last_token, find_line_end, find_tail, trim_window};
use winbundle::text::{chars_of, window_ends_with, window_starts_with};

fn strings(items: &[&str]) -> Vec<String> {
    items.iter().map(|s| s.to_string()).collect()
}

fn ran(stdout: &str) -> ToolRun {
    ToolRun::Exited { success: true, code: 0, stdout: stdout.to_string(), stderr: String::new() }
}

fn failed(code: i32, stderr: &str) -> ToolRun {
    ToolRun::Exited { success: false, code, stdout: String::new(), stderr: stderr.to_string() }
}

const OBJDUMP: &str = "\n\
app.exe:     file format pei-x86-64\n\
\n\
Characteristics 0x22\n\
\texecutable\n\
\tlarge address aware\n\
\n\
The Import Tables (interpreted .idata section contents)\n\
 vma:            Hint    Time      Forward  DLL       First\n\
 00009000\t00009050 00000000 00000000 00009640 000091d8\n\
\n\
\tDLL Name: KERNEL32.dll\n\
\tvma:  Hint/Ord Member-Name Bound-To\n\
\t9200\t  283  GetLastError\n\
\n\
\tDLL Name: libgcc_s_seh-1.dll\n\
\tvma:  Hint/Ord Member-Name Bound-To\n\
\n\
\tDLL Name: msvcrt.dll\n";

fn dumpbin_listing() -> String {
    [
        "Microsoft (R) COFF/PE Dumper Version 14.00",
        "",
        "Dump of file app.exe",
        "",
        "File Type: EXECUTABLE IMAGE",
        "",
        "  Image has the following dependencies:",
        "",
        "    KERNEL32.dll",
        "    VCRUNTIME140.dll",
        "    readme.txt",
        "   three.dll",
        "",
        "  Summary",
        "",
        "        1000 .data",
        "",
    ]
    .join("\r\n")
}

fn objdump_as_std_reads_it(file: &str, listing: &str) -> (String, Vec<String>) {
    let mut imports = Vec::new();
    let mut format = String::new();
    for line in listing.lines() {
        let line = line.trim();
        if line.starts_with("DLL Name:") {
            if let Some(name) = line.split(": ").nth(1) {
                imports.push(name.to_string());
            }
        } else if line.contains(file) {
            format = line.split(':').last().unwrap_or("").trim().split_whitespace().last().unwrap_or("").to_string();
        }
    }
    (format, imports)
}

fn dumpbin_as_std_reads_it(listing: &str) -> Vec<String> {
    let mut imports = Vec::new();
    for line in listing.lines() {
        if line.starts_with("    ") {
            let line = line.trim();
            if line.ends_with(".dll") {
                imports.push(line.to_string());
            }
        }
    }
    imports
}

fn tricky_listings() -> Vec<String> {
    let mut all = strings(&[
        "",
        "\n",
        "\r\n",
        "\n\n",
        "app.exe",
        "app.exe\r",
        "app.exe:",
        "app.exe: a b\u{a0}c",
        "app.exe: a b\u{2003}",
        ":app.exe",
        "x: app.exe  \t",
        "  app.exe: file format pei-x86-64\r\n\tDLL Name: A.dll\r\n",
        "DLL Name: a.dll",
        "DLL Name:a.dll",
        "DLL Name: a.dll: b.dll",
        "DLL Name: : ",
        "DLL Name: : x",
        "DLL Name:  two spaces.dll",
        "\u{3000}DLL Name: wide.dll\u{3000}",
        "dll name: lower.dll",
        "xDLL Name: a.dll app.exe: tag",
        "    a.dll\n    b.dll\r\n    c.dll",
        "    \r\n   x.dll\n     y.dll   \n    z.DLL\n    .dll\n",
        "    app.exe.dll\n\tq.dll\n    r.dll\t\n",
        "no newline at end: app.exe   tag",
        "a\rb: app.exe t1\rt2\n",
    ]);
    all.push(OBJDUMP.to_string());
    all.push(dumpbin_listing());
    all
}

#[test]
fn objdump_listing_gives_format_and_imports() {
    let report = objdump_deps_for("app.exe", PathKind::File, &ran(OBJDUMP));
    assert_eq!(
        report,
        Ok(("pei-x86-64".to_string(), strings(&["KERNEL32.dll", "libgcc_s_seh-1.dll", "msvcrt.dll"])))
    );
}

#[test]
fn objdump_deps_is_the_same_reader() {
    assert_eq!(
        deps("app.exe", PathKind::File, &ran(OBJDUMP)),
        objdump_deps_for("app.exe", PathKind::File, &ran(OBJDUMP))
    );
}

#[test]
fn objdump_imports_are_not_deduplicated() {
    let listing = "DLL Name: a.dll\nDLL Name: b.dll\nDLL Name: a.dll\n";
    assert_eq!(
        objdump_deps_for("x", PathKind::File, &ran(listing)),
        Ok((String::new(), strings(&["a.dll", "b.dll", "a.dll"])))
    );
}

#[test]
fn objdump_listing_without_descriptor_gives_empty_format() {
    let listing = "something else\n\tDLL Name: a.dll\n";
    assert_eq!(
        objdump_deps_for("app.exe", PathKind::File, &ran(listing)),
        Ok((String::new(), strings(&["a.dll"])))
    );
}

#[test]
fn objdump_last_descriptor_line_wins() {
    let listing = "app.exe: file format first\nlater app.exe: file format second  \n";
    assert_eq!(
        objdump_deps_for("app.exe", PathKind::File, &ran(listing)),
        Ok(("second".to_string(), Vec::new()))
    );
}

#[test]
fn objdump_descriptor_takes_last_word_after_last_colon() {
    let listing = "C:\\dir\\app.exe:     file format pei-i386\r\n";
    assert_eq!(
        objdump_deps_for("C:\\dir\\app.exe", PathKind::File, &ran(listing)),
        Ok(("pei-i386".to_string(), Vec::new()))
    );
    let bare = "app.exe:   \n";
    assert_eq!(objdump_deps_for("app.exe", PathKind::File, &ran(bare)), Ok((String::new(), Vec::new())));
    let no_colon = "see app.exe here\n";
    assert_eq!(
        objdump_deps_for("app.exe", PathKind::File, &ran(no_colon)),
        Ok(("here".to_string(), Vec::new()))
    );
}

#[test]
fn objdump_import_line_is_never_a_descriptor() {
    let listing = "app.exe: file format F\nDLL Name: app.exe\n";
    assert_eq!(
        objdump_deps_for("app.exe", PathKind::File, &ran(listing)),
        Ok(("F".to_string(), strings(&["app.exe"])))
    );
}

#[test]
fn objdump_import_name_is_the_second_piece() {
    let listing = "DLL Name:\nDLL Name: \nDLL Name:x.dll\nDLL Name: a.dll: b: c\nDLL Name:odd: kept\n  DLL Name: : x\n  DLL Name: : \n";
    assert_eq!(
        objdump_deps_for("none", PathKind::File, &ran(listing)),
        Ok((String::new(), strings(&["a.dll", "kept", "", ":"])))
    );
}

#[test]
fn objdump_empty_listing_gives_nothing() {
    assert_eq!(objdump_deps_for("app.exe", PathKind::File, &ran("")), Ok((String::new(), Vec::new())));
}

#[test]
fn objdump_refuses_what_is_no_file() {
    assert_eq!(objdump_deps_for("app.exe", PathKind::Missing, &ran(OBJDUMP)), Err(BackendError::NotFound));
    assert_eq!(objdump_deps_for("app.exe", PathKind::NotFile, &ran(OBJDUMP)), Err(BackendError::NotAFile));
}

#[test]
fn objdump_failure_keeps_code_and_stderr() {
    assert_eq!(
        objdump_deps_for("app.exe", PathKind::File, &failed(1, "objdump: app.exe: file format not recognized")),
        Err(BackendError::Exit { code: 1, stderr: "objdump: app.exe: file format not recognized".to_string() })
    );
    assert_eq!(objdump_deps_for("app.exe", PathKind::File, &ToolRun::NotStarted), Err(BackendError::Launch));
}

#[test]
fn dumpbin_listing_gives_imports_and_no_format() {
    assert_eq!(
        dumpbin_deps_for("app.exe", PathKind::File, &ran(&dumpbin_listing())),
        Ok((String::new(), strings(&["KERNEL32.dll", "VCRUNTIME140.dll"])))
    );
}

#[test]
fn dumpbin_wants_four_spaces_and_the_suffix() {
    let listing = "    a.dll\n   b.dll\n\tc.dll\n     d.dll  \n    e.DLL\n    .dll\n    f.dll x\n";
    assert_eq!(
        dumpbin_deps_for("app.exe", PathKind::File, &ran(listing)),
        Ok((String::new(), strings(&["a.dll", "d.dll", ".dll"])))
    );
}

#[test]
fn dumpbin_refuses_what_is_no_file_or_failed() {
    assert_eq!(dumpbin_deps_for("app.exe", PathKind::Missing, &ran(&dumpbin_listing())), Err(BackendError::NotFound));
    assert_eq!(dumpbin_deps_for("app.exe", PathKind::NotFile, &ran(&dumpbin_listing())), Err(BackendError::NotAFile));
    assert_eq!(dumpbin_deps_for("app.exe", PathKind::File, &ToolRun::NotStarted), Err(BackendError::Launch));
    assert_eq!(
        dumpbin_deps_for("app.exe", PathKind::File, &failed(-1, "")),
        Err(BackendError::Exit { code: -1, stderr: String::new() })
    );
}

#[test]
fn deps_for_prefers_the_primary_backend() {
    assert_eq!(
        deps_for("app.exe", PathKind::File, &ran(OBJDUMP), &ran(&dumpbin_listing())),
        Ok(("pei-x86-64".to_string(), strings(&["KERNEL32.dll", "libgcc_s_seh-1.dll", "msvcrt.dll"])))
    );
}

#[test]
fn deps_for_falls_back_to_the_secondary_backend() {
    assert_eq!(
        deps_for("app.exe", PathKind::File, &ToolRun::NotStarted, &ran(&dumpbin_listing())),
        Ok((String::new(), strings(&["KERNEL32.dll", "VCRUNTIME140.dll"])))
    );
    assert_eq!(
        deps_for("app.exe", PathKind::File, &failed(1, "bad"), &ran(&dumpbin_listing())),
        Ok((String::new(), strings(&["KERNEL32.dll", "VCRUNTIME140.dll"])))
    );
}

#[test]
fn deps_for_keeps_both_failures() {
    assert_eq!(
        deps_for("app.exe", PathKind::File, &failed(1, "bad"), &ToolRun::NotStarted),
        Err(InspectionError::InspectionFailed {
            primary: BackendError::Exit { code: 1, stderr: "bad".to_string() },
            secondary: BackendError::Launch,
        })
    );
}

#[test]
fn deps_for_checks_the_path_first() {
    assert_eq!(deps_for("app.exe", PathKind::Missing, &ran(OBJDUMP), &ran(&dumpbin_listing())), Err(InspectionError::NotFound));
    assert_eq!(deps_for("app.exe", PathKind::NotFile, &ran(OBJDUMP), &ran(&dumpbin_listing())), Err(InspectionError::NotAFile));
}

#[test]
fn objdump_reader_agrees_with_the_standard_library() {
    for listing in tricky_listings() {
        for file in ["app.exe", "", "a", ":", "DLL", "t2"] {
            assert_eq!(
                objdump_deps_for(file, PathKind::File, &ran(&listing)),
                Ok(objdump_as_std_reads_it(file, &listing)),
                "file {:?}, listing {:?}",
                file,
                listing
            );
        }
    }
}

#[test]
fn dumpbin_reader_agrees_with_the_standard_library() {
    for listing in tricky_listings() {
        assert_eq!(
            dumpbin_deps_for("app.exe", PathKind::File, &ran(&listing)),
            Ok((String::new(), dumpbin_as_std_reads_it(&listing))),
            "listing {:?}",
            listing
        );
    }
}

#[test]
fn windows_of_text_are_trimmed_and_searched() {
    let v = chars_of("ab  \u{a0}xy: z \t\ncd");
    assert_eq!(find_line_end(&v, 0), 12);
    assert_eq!(find_line_end(&v, 13), 15);
    assert_eq!(find_line_end(&v, 15), 15);
    assert_eq!(trim_window(&v, 2, 12), (5, 10));
    assert_eq!(trim_window(&v, 2, 5), (5, 5));
    assert!(window_starts_with(&v, 5, 10, &chars_of("xy")));
    assert!(!window_starts_with(&v, 5, 6, &chars_of("xy")));
    assert!(window_ends_with(&v, 5, 10, &chars_of(": z")));
    assert!(!window_ends_with(&v, 5, 10, &chars_of("xy: z!")));
    assert_eq!(find_in_window(&v, 0, 12, &chars_of(": ")), Some(7));
    assert_eq!(find_in_window(&v, 8, 12, &chars_of(": ")), None);
    assert_eq!(find_in_window(&v, 3, 3, &chars_of("")), Some(3));
    assert_eq!(find_tail(&v, 0, 12, ':'), 8);
    assert_eq!(find_tail(&v, 0, 7, ':'), 0);
    assert_eq!(find_last_token(&v, 0, 12), (9, 10));
    assert_eq!(find_last_token(&v, 2, 5), (2, 2));
}
