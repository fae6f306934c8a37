//! What goes into a bundle, and where.
//!
//! Nothing is copied here. The plan lists, in order, the files that the
//! caller is to copy into the output directory: first each resolved library,
//! which is left out when a file of its name is already there, then each
//! seed artifact, which replaces what is there.

use vstd::prelude::*;
use vstd::string::*;
use crate::model::Library;
use crate::resolver::{libraries, ResolvedLibrary};
use crate::search::{join, joined};
use crate::text::{after_last, chars_of, find_tail, texts};

verus! {

/// One file of a bundle, as a mathematical value.
pub struct Placed {
    pub source: Seq<char>,
    pub target: Seq<char>,
    pub overwrite: bool,
}

/// One file of a bundle: `source` is to be copied to `target`. Where
/// `overwrite` is false, a `target` that exists is left as it is.
#[derive(Debug, PartialEq, Eq)]
pub struct Placement {
    pub source: String,
    pub target: String,
    pub overwrite: bool,
}

impl View for Placement {
    type V = Placed;

    open spec fn view(&self) -> Placed {
        Placed { source: self.source@, target: self.target@, overwrite: self.overwrite }
    }
}

/// The placements that a sequence of records holds, one for one.
pub open spec fn placements(v: Seq<Placement>) -> Seq<Placed> {
    Seq::new(v.len(), |i: int| v[i]@)
}

/// The name of the file at `path`: what follows its last separator.
pub open spec fn base_name(path: Seq<char>) -> Seq<char> {
    after_last(path, '/')
}

/// Where the file at `path` goes in the directory `out`.
pub open spec fn target_in(out: Seq<char>, path: Seq<char>) -> Seq<char> {
    joined(out, base_name(path))
}

/// The plan of a bundle: the libraries in their order, none overwriting,
/// then the seeds in their order, each overwriting.
pub open spec fn plan_of(found: Seq<Library>, seeds: Seq<Seq<char>>, out: Seq<char>) -> Seq<Placed> {
    Seq::new(
        found.len() + seeds.len(),
        |i: int|
            if i < found.len() {
                Placed { source: found[i].path, target: target_in(out, found[i].path), overwrite: false }
            } else {
                Placed {
                    source: seeds[i - found.len()],
                    target: target_in(out, seeds[i - found.len()]),
                    overwrite: true,
                }
            },
    )
}

/// The name of the file at `path`.
pub fn file_name(path: &str) -> (name: String)
    ensures
        name@ == base_name(path@),
{
    let v = chars_of(path);
    let at = find_tail(&v, 0, v.len(), '/');
    assert(v@.subrange(0, v@.len() as int) =~= v@);
    path.substring_char(at, v.len()).to_owned()
}

/// Plans the bundle of the libraries `found` and the seed artifacts `seeds`
/// in the directory `out`.
pub fn plan(found: &Vec<ResolvedLibrary>, seeds: &Vec<String>, out: &str) -> (steps: Vec<Placement>)
    ensures
        placements(steps@) == plan_of(libraries(found@), texts(seeds@), out@),
{
    let mut steps: Vec<Placement> = Vec::new();
    let mut i: usize = 0;
    while i < found.len()
        invariant
            i <= found@.len(),
            steps@.len() == i,
            forall|k: int|
                0 <= k < i ==> (#[trigger] steps@[k])@ == (Placed {
                    source: found@[k].path@,
                    target: target_in(out@, found@[k].path@),
                    overwrite: false,
                }),
        decreases found@.len() - i,
    {
        let source = found[i].path.clone();
        let name = file_name(source.as_str());
        let target = join(out, name.as_str());
        steps.push(Placement { source, target, overwrite: false });
        i += 1;
    }
    let mut j: usize = 0;
    while j < seeds.len()
        invariant
            j <= seeds@.len(),
            steps@.len() == found@.len() + j,
            forall|k: int|
                0 <= k < found@.len() ==> (#[trigger] steps@[k])@ == (Placed {
                    source: found@[k].path@,
                    target: target_in(out@, found@[k].path@),
                    overwrite: false,
                }),
            forall|k: int|
                0 <= k < j ==> (#[trigger] steps@[found@.len() + k])@ == (Placed {
                    source: seeds@[k]@,
                    target: target_in(out@, seeds@[k]@),
                    overwrite: true,
                }),
        decreases seeds@.len() - j,
    {
        let source = seeds[j].clone();
        let name = file_name(source.as_str());
        let target = join(out, name.as_str());
        steps.push(Placement { source, target, overwrite: true });
        j += 1;
    }
    assert(placements(steps@) =~= plan_of(libraries(found@), texts(seeds@), out@)) by {
        assert forall|k: int| 0 <= k < steps@.len() implies placements(steps@)[k] == plan_of(
            libraries(found@),
            texts(seeds@),
            out@,
        )[k] by {
            if k >= found@.len() {
                assert(steps@[found@.len() + (k - found@.len())]@ == placements(steps@)[k]);
            }
        }
    }
    steps
}

} // verus!
