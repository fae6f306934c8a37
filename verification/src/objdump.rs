//! Reading the private headers that `objdump -p` prints for a binary.
//!
//! Each line is taken without its surrounding white space. A line that
//! begins with `DLL Name:` declares an import. Any other line that holds the
//! inspected file's path is the file's descriptor line, and its last word is
//! the format tag.

use vstd::prelude::*;
use vstd::string::*;
use crate::backend::{listing_of, refusal, report_view, PathKind, Report, ToolRun};
use crate::error::BackendError;
use crate::text::{
    after_last, chars_of, contains_text, find_in_window, find_last_token, find_line_end, find_tail,
    first_at, last_token, lines, lines_from, starts_with, texts, trim_window, trimmed,
    window_starts_with,
};

verus! {

/// What an import line begins with.
pub open spec fn import_marker() -> Seq<char> {
    "DLL Name:"@
}

/// What parts an import line into its pieces.
pub open spec fn separator() -> Seq<char> {
    ": "@
}

/// The name that an import line declares: its second piece, where the
/// pieces are what the separators leave. None when the line has no
/// separator.
pub open spec fn import_name(line: Seq<char>) -> Option<Seq<char>> {
    match first_at(line, separator(), 0) {
        None => None,
        Some(i) => {
            let rest = line.subrange(i + separator().len(), line.len() as int);
            match first_at(rest, separator(), 0) {
                Some(j) => Some(rest.subrange(0, j)),
                None => Some(rest),
            }
        },
    }
}

/// The format tag that a descriptor line gives: the last word of what
/// follows its last colon.
pub open spec fn descriptor_tag(line: Seq<char>) -> Seq<char> {
    last_token(after_last(line, ':'))
}

/// The names that the import lines among `all` declare, in line order.
pub open spec fn objdump_imports(all: Seq<Seq<char>>) -> Seq<Seq<char>>
    decreases all.len(),
{
    if all.len() == 0 {
        Seq::empty()
    } else {
        let before = objdump_imports(all.drop_last());
        let line = trimmed(all.last());
        if starts_with(line, import_marker()) && import_name(line) is Some {
            before.push(import_name(line)->0)
        } else {
            before
        }
    }
}

/// The format tag that the lines `all` give for `file`: the tag of the last
/// descriptor line, empty when there is none.
pub open spec fn objdump_format(file: Seq<char>, all: Seq<Seq<char>>) -> Seq<char>
    decreases all.len(),
{
    if all.len() == 0 {
        Seq::empty()
    } else {
        let line = trimmed(all.last());
        if !starts_with(line, import_marker()) && contains_text(line, file) {
            descriptor_tag(line)
        } else {
            objdump_format(file, all.drop_last())
        }
    }
}

/// What `objdump` reports of `file`, given what was found at the path and
/// how the tool's run ended.
pub open spec fn objdump_report(file: Seq<char>, kind: PathKind, run: crate::backend::Run) -> Report {
    match listing_of(kind, run) {
        Ok(listing) => Ok((objdump_format(file, lines(listing)), objdump_imports(lines(listing)))),
        Err(fault) => Err(fault),
    }
}

/// Reads the format tag and the imported names out of a listing.
pub fn read_listing(file: &str, listing: &str) -> (report: (String, Vec<String>))
    ensures
        report.0@ == objdump_format(file@, lines(listing@)),
        texts(report.1@) == objdump_imports(lines(listing@)),
{
    let v = chars_of(listing);
    let path = chars_of(file);
    let marker = chars_of("DLL Name:");
    let sep = chars_of(": ");
    proof {
        reveal_strlit(": ");
    }
    let mut format = String::new();
    let mut imports: Vec<String> = Vec::new();
    let mut from: usize = 0;
    let ghost mut done: Seq<Seq<char>> = Seq::empty();
    assert(texts(imports@) =~= objdump_imports(done));
    while from < v.len()
        invariant
            from <= v@.len(),
            v@ == listing@,
            path@ == file@,
            marker@ == import_marker(),
            sep@ == separator(),
            sep@.len() == 2,
            lines(v@) == done + lines_from(v@, from as int),
            format@ == objdump_format(file@, done),
            texts(imports@) == objdump_imports(done),
        decreases v@.len() - from,
    {
        let end = find_line_end(&v, from);
        let (lo, hi) = trim_window(&v, from, end);
        let ghost whole = v@.subrange(from as int, end as int);
        let ghost line = v@.subrange(lo as int, hi as int);
        let ghost old_imports = texts(imports@);
        proof {
            assert(done.push(whole).drop_last() =~= done);
            assert(done.push(whole).last() == whole);
        }
        if window_starts_with(&v, lo, hi, &marker) {
            match find_in_window(&v, lo, hi, &sep) {
                Some(i) => {
                    let start = i + sep.len();
                    let ghost rest = line.subrange(i - lo + 2, line.len() as int);
                    assert(v@.subrange(start as int, hi as int) =~= rest);
                    let stop = match find_in_window(&v, start, hi, &sep) {
                        Some(j) => j,
                        None => hi,
                    };
                    assert(v@.subrange(start as int, stop as int) =~= rest.subrange(0, stop - start));
                    assert(rest.subrange(0, rest.len() as int) =~= rest);
                    let name = listing.substring_char(start, stop).to_owned();
                    assert(name@ == import_name(line)->0);
                    imports.push(name);
                    assert(texts(imports@) =~= old_imports.push(name@));
                },
                None => {},
            }
        } else if find_in_window(&v, lo, hi, &path).is_some() {
            let at = find_tail(&v, lo, hi, ':');
            let (a, b) = find_last_token(&v, at, hi);
            format = listing.substring_char(a, b).to_owned();
        }
        proof {
            assert(done + lines_from(v@, from as int) =~= done.push(whole) + lines_from(
                v@,
                if end < v@.len() {
                    end + 1
                } else {
                    end as int
                },
            ));
            done = done.push(whole);
        }
        from = if end < v.len() {
            end + 1
        } else {
            end
        };
    }
    assert(done + lines_from(v@, from as int) =~= done);
    (format, imports)
}

/// Reports the format tag and the imported names of `file` from a run of
/// `objdump -p` on it.
///
/// `kind` is what was found at the path and `run` how the tool's run ended.
/// There is a report exactly when the path holds a regular file and the
/// tool started and succeeded; otherwise the first of these that failed is
/// the error.
pub fn deps(file: &str, kind: PathKind, run: &ToolRun) -> (report: Result<(String, Vec<String>), BackendError>)
    ensures
        report_view(report) == objdump_report(file@, kind, run@),
{
    match refusal(kind, run) {
        Some(error) => Err(error),
        None => match run {
            ToolRun::Exited { success, code, stdout, stderr } => Ok(read_listing(file, stdout.as_str())),
            ToolRun::NotStarted => Err(BackendError::Launch),
        },
    }
}

} // verus!
