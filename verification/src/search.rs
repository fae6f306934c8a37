//! Where a library is looked for: the ordered candidate paths of a name.
//!
//! Paths are joined with a forward slash. Nothing here touches the
//! filesystem: whether a candidate exists is for the caller to find out.

use vstd::prelude::*;
use vstd::string::*;
use crate::text::texts;

verus! {

/// The place to search, as a mathematical value.
pub enum Roots {
    /// An installation tree, probed at its top, its `bin` and its `lib`.
    Tree(Seq<char>),
    /// The directories of a search path, in their declared order.
    Dirs(Seq<Seq<char>>),
    /// No search path is known: names are taken relative to the working
    /// directory.
    WorkingDir,
}

/// The place to search for libraries.
#[derive(Debug, PartialEq, Eq)]
pub enum SearchRoot {
    /// An installation tree, probed at its top, its `bin` and its `lib`.
    Tree(String),
    /// The directories of a search path, in their declared order.
    Dirs(Vec<String>),
    /// No search path is known: names are taken relative to the working
    /// directory.
    WorkingDir,
}

impl View for SearchRoot {
    type V = Roots;

    open spec fn view(&self) -> Roots {
        match self {
            SearchRoot::Tree(base) => Roots::Tree(base@),
            SearchRoot::Dirs(dirs) => Roots::Dirs(texts(dirs@)),
            SearchRoot::WorkingDir => Roots::WorkingDir,
        }
    }
}

/// `part` appended to `base` as a further path component. A `part` that
/// starts at the root replaces `base`; a separator is put between the two
/// unless `base` is empty or already ends in one.
pub open spec fn joined(base: Seq<char>, part: Seq<char>) -> Seq<char> {
    if part.len() > 0 && part[0] == '/' {
        part
    } else if base.len() == 0 || base.last() == '/' {
        base + part
    } else {
        base.push('/') + part
    }
}

/// The search root that a configuration selects: the tree at `sysroot` when
/// one is given, else the search path, else the working directory.
pub open spec fn selected_roots(sysroot: Seq<char>, search_path: Option<Seq<Seq<char>>>) -> Roots {
    if sysroot.len() > 0 {
        Roots::Tree(sysroot)
    } else {
        match search_path {
            Some(dirs) => Roots::Dirs(dirs),
            None => Roots::WorkingDir,
        }
    }
}

/// The paths at which `name` is looked for under `root`, in probe order.
pub open spec fn candidate_paths(name: Seq<char>, root: Roots) -> Seq<Seq<char>> {
    match root {
        Roots::Tree(base) => seq![
            joined(base, name),
            joined(joined(base, seq!['b', 'i', 'n']), name),
            joined(joined(base, seq!['l', 'i', 'b']), name),
        ],
        Roots::Dirs(dirs) => Seq::new(dirs.len(), |i: int| joined(dirs[i], name)),
        Roots::WorkingDir => seq![name],
    }
}

/// Appends `part` to `base` as a further path component.
pub fn join(base: &str, part: &str) -> (path: String)
    ensures
        path@ == joined(base@, part@),
{
    if !part.is_empty() && part.get_char(0) == '/' {
        return part.to_owned();
    }
    let n = base.unicode_len();
    let mut path = base.to_owned();
    if n > 0 && base.get_char(n - 1) != '/' {
        proof {
            reveal_strlit("/");
        }
        path.append("/");
        assert(path@ =~= base@.push('/'));
    }
    path.append(part);
    path
}

impl SearchRoot {
    /// Chooses the search root from a configuration: `sysroot` when it is
    /// not empty, else the directories of the search path when there is one,
    /// else the working directory.
    pub fn select(sysroot: &str, search_path: Option<Vec<String>>) -> (root: SearchRoot)
        ensures
            root@ == selected_roots(
                sysroot@,
                match search_path {
                    Some(dirs) => Some(texts(dirs@)),
                    None => None,
                },
            ),
    {
        if !sysroot.is_empty() {
            SearchRoot::Tree(sysroot.to_owned())
        } else {
            match search_path {
                Some(dirs) => SearchRoot::Dirs(dirs),
                None => SearchRoot::WorkingDir,
            }
        }
    }
}

/// Lists the paths at which `name` is looked for under `root`, in the order
/// in which they are to be probed.
pub fn candidates(name: &str, root: &SearchRoot) -> (paths: Vec<String>)
    ensures
        texts(paths@) == candidate_paths(name@, root@),
{
    let mut paths: Vec<String> = Vec::new();
    match root {
        SearchRoot::Tree(base) => {
            proof {
                reveal_strlit("bin");
                reveal_strlit("lib");
            }
            let bin = join(base.as_str(), "bin");
            let lib = join(base.as_str(), "lib");
            assert("bin"@ =~= seq!['b', 'i', 'n']);
            assert("lib"@ =~= seq!['l', 'i', 'b']);
            paths.push(join(base.as_str(), name));
            paths.push(join(bin.as_str(), name));
            paths.push(join(lib.as_str(), name));
            assert(texts(paths@) =~= candidate_paths(name@, root@));
        },
        SearchRoot::Dirs(dirs) => {
            let mut i: usize = 0;
            while i < dirs.len()
                invariant
                    i <= dirs@.len(),
                    paths@.len() == i,
                    forall|k: int| 0 <= k < i ==> (#[trigger] paths@[k])@ == joined(dirs@[k]@, name@),
                decreases dirs@.len() - i,
            {
                paths.push(join(dirs[i].as_str(), name));
                i += 1;
            }
            assert(texts(paths@) =~= candidate_paths(name@, root@));
        },
        SearchRoot::WorkingDir => {
            paths.push(name.to_owned());
            assert(texts(paths@) =~= candidate_paths(name@, root@));
        },
    }
    paths
}

} // verus!
