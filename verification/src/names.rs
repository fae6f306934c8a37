//! Dependency names and the set of system libraries.
//!
//! Names are compared without regard to case: two names are the same when
//! their lowercase forms are equal. A name is stored as it was first seen.

use vstd::prelude::*;
use vstd::string::*;
use crate::text::{same_text, texts};

verus! {

/// The lowercase form of a text, as `str::to_lowercase` of the standard
/// library computes it from the text alone.
pub uninterp spec fn lowercase_of(s: Seq<char>) -> Seq<char>;

/// Calls `str::to_lowercase`. Trusted: the result is the lowercase form that
/// the standard library defines for the text; nothing more is claimed of it.
#[verifier::external_body]
pub(crate) fn lowercase(s: &str) -> (lower: String)
    ensures
        lower@ == lowercase_of(s@),
{
    s.to_lowercase()
}

/// Two names denote the same library.
pub open spec fn same_name(a: Seq<char>, b: Seq<char>) -> bool {
    lowercase_of(a) == lowercase_of(b)
}

/// `name` is the same as some member of `list`.
pub open spec fn listed(list: Seq<Seq<char>>, name: Seq<char>) -> bool {
    exists|i: int| 0 <= i < list.len() && same_name(#[trigger] list[i], name)
}

/// No two members of `list` are the same name.
pub open spec fn distinct(list: Seq<Seq<char>>) -> bool {
    forall|i: int, j: int|
        0 <= i < j < list.len() ==> !same_name(#[trigger] list[i], #[trigger] list[j])
}

/// The lowercase forms of the members of `list`, one for one.
pub open spec fn lowercased(list: Seq<Seq<char>>) -> Seq<Seq<char>> {
    Seq::new(list.len(), |i: int| lowercase_of(list[i]))
}

/// The libraries that every target system provides by itself.
pub open spec fn default_system_names() -> Seq<Seq<char>> {
    seq![
        "advapi32.dll"@,
        "gdi32.dll"@,
        "kernel32.dll"@,
        "msvcrt.dll"@,
        "shell32.dll"@,
        "userenv.dll"@,
        "user32.dll"@,
        "ws2_32.dll"@,
    ]
}

/// Lists the libraries that every target system provides by itself.
pub fn default_system_libraries() -> (list: Vec<String>)
    ensures
        texts(list@) == default_system_names(),
{
    let mut list: Vec<String> = Vec::new();
    list.push("advapi32.dll".to_owned());
    list.push("gdi32.dll".to_owned());
    list.push("kernel32.dll".to_owned());
    list.push("msvcrt.dll".to_owned());
    list.push("shell32.dll".to_owned());
    list.push("userenv.dll".to_owned());
    list.push("user32.dll".to_owned());
    list.push("ws2_32.dll".to_owned());
    assert(texts(list@) =~= default_system_names());
    list
}

/// Lowercases every member of `list`.
pub fn lowercase_all(list: &Vec<String>) -> (keys: Vec<String>)
    ensures
        texts(keys@) == lowercased(texts(list@)),
{
    let mut keys: Vec<String> = Vec::new();
    let mut i: usize = 0;
    while i < list.len()
        invariant
            i <= list@.len(),
            keys@.len() == i,
            forall|k: int| 0 <= k < i ==> (#[trigger] keys@[k])@ == lowercase_of(list@[k]@),
        decreases list@.len() - i,
    {
        keys.push(lowercase(list[i].as_str()));
        i += 1;
    }
    assert(texts(keys@) =~= lowercased(texts(list@)));
    keys
}

/// Whether `key` is a member of `keys`, letter for letter.
pub fn holds(keys: &Vec<String>, key: &str) -> (found: bool)
    ensures
        found == texts(keys@).contains(key@),
{
    let mut i: usize = 0;
    while i < keys.len()
        invariant
            i <= keys@.len(),
            forall|k: int| 0 <= k < i ==> (#[trigger] keys@[k])@ != key@,
        decreases keys@.len() - i,
    {
        if same_text(keys[i].as_str(), key) {
            assert(texts(keys@)[i as int] == key@);
            return true;
        }
        i += 1;
    }
    assert(!texts(keys@).contains(key@)) by {
        if texts(keys@).contains(key@) {
            let k = choose|k: int| 0 <= k < texts(keys@).len() && texts(keys@)[k] == key@;
            assert(keys@[k]@ == key@);
        }
    }
    false
}

/// A name is listed in `list` exactly when its lowercase form is among the
/// lowercase forms of the members.
pub proof fn listed_by_key(list: Seq<Seq<char>>, name: Seq<char>)
    ensures
        listed(list, name) <==> lowercased(list).contains(lowercase_of(name)),
{
    if listed(list, name) {
        let i = choose|i: int| 0 <= i < list.len() && same_name(#[trigger] list[i], name);
        assert(lowercased(list)[i] == lowercase_of(name));
    }
    if lowercased(list).contains(lowercase_of(name)) {
        let i = choose|i: int|
            0 <= i < lowercased(list).len() && lowercased(list)[i] == lowercase_of(name);
        assert(same_name(list[i], name));
    }
}

/// Whether `name` is one of the system libraries in `system`, compared
/// without regard to case.
pub fn is_system_library(system: &Vec<String>, name: &str) -> (found: bool)
    ensures
        found == listed(texts(system@), name@),
{
    let keys = lowercase_all(system);
    let key = lowercase(name);
    proof {
        listed_by_key(texts(system@), name@);
    }
    holds(&keys, key.as_str())
}

} // verus!
