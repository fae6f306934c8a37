//! Reading what `dumpbin /dependents` prints for a binary.
//!
//! A line that begins with four spaces and, taken without its surrounding
//! white space, ends in `.dll` names an import. The listing tells no format.

use vstd::prelude::*;
use vstd::string::*;
use crate::backend::{listing_of, PathKind, Report, Run};
use crate::text::{
    chars_of, ends_with, find_line_end, lines, lines_from, starts_with, texts, trim_window, trimmed,
    window_ends_with, window_starts_with,
};

verus! {

/// What a line that may name an import begins with.
pub open spec fn indent() -> Seq<char> {
    "    "@
}

/// What the name of an import ends in.
pub open spec fn library_suffix() -> Seq<char> {
    ".dll"@
}

/// The imports that the lines `all` name, in line order.
pub open spec fn dumpbin_imports(all: Seq<Seq<char>>) -> Seq<Seq<char>>
    decreases all.len(),
{
    if all.len() == 0 {
        Seq::empty()
    } else {
        let before = dumpbin_imports(all.drop_last());
        let line = all.last();
        if starts_with(line, indent()) && ends_with(trimmed(line), library_suffix()) {
            before.push(trimmed(line))
        } else {
            before
        }
    }
}

/// What `dumpbin` reports of a file, given what was found at the path and
/// how the tool's run ended. The format tag is always empty.
pub open spec fn dumpbin_report(kind: PathKind, run: Run) -> Report {
    match listing_of(kind, run) {
        Ok(listing) => Ok((Seq::empty(), dumpbin_imports(lines(listing)))),
        Err(fault) => Err(fault),
    }
}

/// Reads the imported names out of a listing.
pub fn read_listing(listing: &str) -> (imports: Vec<String>)
    ensures
        texts(imports@) == dumpbin_imports(lines(listing@)),
{
    let v = chars_of(listing);
    let lead = chars_of("    ");
    let suffix = chars_of(".dll");
    let mut imports: Vec<String> = Vec::new();
    let mut from: usize = 0;
    let ghost mut done: Seq<Seq<char>> = Seq::empty();
    assert(texts(imports@) =~= dumpbin_imports(done));
    while from < v.len()
        invariant
            from <= v@.len(),
            v@ == listing@,
            lead@ == indent(),
            suffix@ == library_suffix(),
            lines(v@) == done + lines_from(v@, from as int),
            texts(imports@) == dumpbin_imports(done),
        decreases v@.len() - from,
    {
        let end = find_line_end(&v, from);
        let ghost whole = v@.subrange(from as int, end as int);
        let ghost old_imports = texts(imports@);
        proof {
            assert(done.push(whole).drop_last() =~= done);
            assert(done.push(whole).last() == whole);
        }
        if window_starts_with(&v, from, end, &lead) {
            let (lo, hi) = trim_window(&v, from, end);
            if window_ends_with(&v, lo, hi, &suffix) {
                let name = listing.substring_char(lo, hi).to_owned();
                imports.push(name);
                assert(texts(imports@) =~= old_imports.push(name@));
            }
        }
        proof {
            assert(done + lines_from(v@, from as int) =~= done.push(whole) + lines_from(
                v@,
                if end < v@.len() {
                    end + 1
                } else {
                    end as int
                },
            ));
            done = done.push(whole);
        }
        from = if end < v.len() {
            end + 1
        } else {
            end
        };
    }
    assert(done + lines_from(v@, from as int) =~= done);
    imports
}

} // verus!
