//! Character-level helpers on strings: equality, white space, lines,
//! searching. The executable functions work on a window `[lo, hi)` of a
//! character vector; their contracts speak of the text in that window.

use vstd::prelude::*;
use vstd::std_specs::iter::IteratorSpec;
use vstd::string::*;

verus! {

/// The texts that a sequence of strings holds, one for one.
pub open spec fn texts(v: Seq<String>) -> Seq<Seq<char>> {
    Seq::new(v.len(), |i: int| v[i]@)
}

/// The characters with the Unicode property `White_Space`.
pub open spec fn white_space(c: char) -> bool {
    let v = c as u32;
    ||| 0x09 <= v <= 0x0d
    ||| v == 0x20
    ||| v == 0x85
    ||| v == 0xa0
    ||| v == 0x1680
    ||| 0x2000 <= v <= 0x200a
    ||| v == 0x2028
    ||| v == 0x2029
    ||| v == 0x202f
    ||| v == 0x205f
    ||| v == 0x3000
}

/// The first position at or after `from` that holds no white space; the
/// length of `s` when there is none.
pub open spec fn skip_space(s: Seq<char>, from: int) -> int
    decreases s.len() - from,
{
    if 0 <= from < s.len() && white_space(s[from]) {
        skip_space(s, from + 1)
    } else {
        from
    }
}

/// The end of what is left of `s[floor..to]` once its trailing white space
/// is dropped.
pub open spec fn drop_space(s: Seq<char>, floor: int, to: int) -> int
    decreases to - floor,
{
    if floor < to <= s.len() && 0 < to && white_space(s[to - 1]) {
        drop_space(s, floor, to - 1)
    } else {
        to
    }
}

/// `s` without its leading and trailing white space.
pub open spec fn trimmed(s: Seq<char>) -> Seq<char> {
    let lo = skip_space(s, 0);
    let hi = drop_space(s, lo, s.len() as int);
    s.subrange(lo, hi)
}

/// The position of the first line feed at or after `from`; the length of
/// `s` when there is none.
pub open spec fn line_end(s: Seq<char>, from: int) -> int
    decreases s.len() - from,
{
    if 0 <= from < s.len() && s[from] != '\n' {
        line_end(s, from + 1)
    } else {
        from
    }
}

/// The lines of `s` that begin at or after `from`. A line ends before a
/// line feed or at the end of the text; a final line feed begins no line.
pub open spec fn lines_from(s: Seq<char>, from: int) -> Seq<Seq<char>>
    decreases s.len() - from,
{
    if 0 <= from < s.len() {
        let end = line_end(s, from);
        if from <= end < s.len() {
            seq![s.subrange(from, end)] + lines_from(s, end + 1)
        } else {
            seq![s.subrange(from, s.len() as int)]
        }
    } else {
        Seq::empty()
    }
}

/// The lines of `s`.
pub open spec fn lines(s: Seq<char>) -> Seq<Seq<char>> {
    lines_from(s, 0)
}

/// `p` stands in `s` at position `at`.
pub open spec fn found_at(s: Seq<char>, p: Seq<char>, at: int) -> bool {
    0 <= at && at + p.len() <= s.len() && s.subrange(at, at + p.len()) == p
}

/// `s` begins with `p`.
pub open spec fn starts_with(s: Seq<char>, p: Seq<char>) -> bool {
    found_at(s, p, 0)
}

/// `s` ends with `p`.
pub open spec fn ends_with(s: Seq<char>, p: Seq<char>) -> bool {
    found_at(s, p, s.len() - p.len())
}

/// The first position at or after `from` at which `p` stands in `s`.
pub open spec fn first_at(s: Seq<char>, p: Seq<char>, from: int) -> Option<int>
    decreases s.len() - from,
{
    if from < 0 || from + p.len() > s.len() {
        None
    } else if found_at(s, p, from) {
        Some(from)
    } else if from < s.len() {
        first_at(s, p, from + 1)
    } else {
        None
    }
}

/// `p` stands somewhere in `s`.
pub open spec fn contains_text(s: Seq<char>, p: Seq<char>) -> bool {
    first_at(s, p, 0) is Some
}

/// Where the part of `s[..to]` after its last `c` begins; 0 when it holds
/// no `c`.
pub open spec fn tail_start(s: Seq<char>, c: char, to: int) -> int
    decreases to,
{
    if 0 < to <= s.len() && s[to - 1] != c {
        tail_start(s, c, to - 1)
    } else {
        to
    }
}

/// What follows the last `c` in `s`; all of `s` when it holds no `c`.
pub open spec fn after_last(s: Seq<char>, c: char) -> Seq<char> {
    s.subrange(tail_start(s, c, s.len() as int), s.len() as int)
}

/// Where the run of characters that are no white space and end at `to`
/// begins.
pub open spec fn token_start(s: Seq<char>, to: int) -> int
    decreases to,
{
    if 0 < to <= s.len() && !white_space(s[to - 1]) {
        token_start(s, to - 1)
    } else {
        to
    }
}

/// The last word of `s`: its last run of characters that are no white
/// space. Empty when `s` holds white space only.
pub open spec fn last_token(s: Seq<char>) -> Seq<char> {
    let end = drop_space(s, 0, s.len() as int);
    s.subrange(token_start(s, end), end)
}

/// Whether `c` is white space.
pub fn is_white_space(c: char) -> (yes: bool)
    ensures
        yes == white_space(c),
{
    let v: u32 = c as u32;
    (0x09 <= v && v <= 0x0d) || v == 0x20 || v == 0x85 || v == 0xa0 || v == 0x1680 || (0x2000 <= v && v
        <= 0x200a) || v == 0x2028 || v == 0x2029 || v == 0x202f || v == 0x205f || v == 0x3000
}

/// The characters of a string, in order.
pub fn chars_of(s: &str) -> (v: Vec<char>)
    ensures
        v@ == s@,
{
    let mut v: Vec<char> = Vec::new();
    for c in it: s.chars()
        invariant
            v@ == it.seq().take(it.index()),
            it.seq() == s@,
    {
        v.push(c);
    }
    v
}

/// Whether two strings hold the same characters.
pub fn same_text(a: &str, b: &str) -> (same: bool)
    ensures
        same == (a@ == b@),
{
    let x = a.as_bytes();
    let y = b.as_bytes();
    proof {
        vstd::utf8::encode_utf8_decode_utf8(a@);
        vstd::utf8::encode_utf8_decode_utf8(b@);
    }
    if x.len() != y.len() {
        return false;
    }
    let mut i: usize = 0;
    while i < x.len()
        invariant
            x@ == vstd::utf8::encode_utf8(a@),
            y@ == vstd::utf8::encode_utf8(b@),
            x@.len() == y@.len(),
            i <= x@.len(),
            forall|k: int| 0 <= k < i ==> x@[k] == y@[k],
        decreases x@.len() - i,
    {
        if x[i] != y[i] {
            return false;
        }
        i += 1;
    }
    assert(x@ =~= y@);
    true
}

/// Finds where the line that begins at `from` ends.
pub fn find_line_end(v: &Vec<char>, from: usize) -> (end: usize)
    requires
        from <= v@.len(),
    ensures
        from <= end <= v@.len(),
        end == line_end(v@, from as int),
{
    let mut i: usize = from;
    while i < v.len() && v[i] != '\n'
        invariant
            from <= i <= v@.len(),
            line_end(v@, from as int) == line_end(v@, i as int),
        decreases v@.len() - i,
    {
        i += 1;
    }
    i
}

/// Trims the window `[lo, hi)`: the bounds of what is left of it without
/// its leading and trailing white space.
pub fn trim_window(v: &Vec<char>, lo: usize, hi: usize) -> (r: (usize, usize))
    requires
        lo <= hi <= v@.len(),
    ensures
        lo <= r.0 <= r.1 <= hi,
        v@.subrange(r.0 as int, r.1 as int) == trimmed(v@.subrange(lo as int, hi as int)),
{
    let ghost w = v@.subrange(lo as int, hi as int);
    let mut a: usize = lo;
    while a < hi && is_white_space(v[a])
        invariant
            lo <= a <= hi <= v@.len(),
            w == v@.subrange(lo as int, hi as int),
            skip_space(w, 0) == skip_space(w, a - lo),
        decreases hi - a,
    {
        assert(w[a - lo] == v@[a as int]);
        a += 1;
    }
    assert(skip_space(w, a - lo) == a - lo) by {
        if a < hi {
            assert(w[a - lo] == v@[a as int]);
        }
    }
    let mut b: usize = hi;
    while a < b && is_white_space(v[b - 1])
        invariant
            lo <= a <= b <= hi <= v@.len(),
            w == v@.subrange(lo as int, hi as int),
            drop_space(w, a - lo, w.len() as int) == drop_space(w, a - lo, b - lo),
        decreases b - a,
    {
        assert(w[b - lo - 1] == v@[b - 1]);
        b -= 1;
    }
    assert(drop_space(w, a - lo, b - lo) == b - lo) by {
        if a < b {
            assert(w[b - lo - 1] == v@[b - 1]);
        }
    }
    assert(v@.subrange(a as int, b as int) =~= w.subrange(a - lo, b - lo));
    (a, b)
}

/// Whether `p` stands in the window that ends at `hi`, at position `at`.
pub fn stands_at(v: &Vec<char>, hi: usize, at: usize, p: &Vec<char>) -> (yes: bool)
    requires
        at <= hi <= v@.len(),
    ensures
        yes == (at + p@.len() <= hi && v@.subrange(at as int, at + p@.len()) == p@),
{
    if p.len() > hi - at {
        return false;
    }
    let mut k: usize = 0;
    while k < p.len()
        invariant
            at + p@.len() <= hi <= v@.len(),
            k <= p@.len(),
            forall|j: int| 0 <= j < k ==> v@[at + j] == p@[j],
        decreases p@.len() - k,
    {
        if v[at + k] != p[k] {
            assert(v@.subrange(at as int, at + p@.len())[k as int] != p@[k as int]);
            return false;
        }
        k += 1;
    }
    assert(v@.subrange(at as int, at + p@.len()) =~= p@);
    true
}

/// Whether the window `[lo, hi)` begins with `p`.
pub fn window_starts_with(v: &Vec<char>, lo: usize, hi: usize, p: &Vec<char>) -> (yes: bool)
    requires
        lo <= hi <= v@.len(),
    ensures
        yes == starts_with(v@.subrange(lo as int, hi as int), p@),
{
    let ghost w = v@.subrange(lo as int, hi as int);
    assert(lo + p@.len() <= hi ==> w.subrange(0, p@.len() as int) =~= v@.subrange(
        lo as int,
        lo + p@.len(),
    ));
    stands_at(v, hi, lo, p)
}

/// Whether the window `[lo, hi)` ends with `p`.
pub fn window_ends_with(v: &Vec<char>, lo: usize, hi: usize, p: &Vec<char>) -> (yes: bool)
    requires
        lo <= hi <= v@.len(),
    ensures
        yes == ends_with(v@.subrange(lo as int, hi as int), p@),
{
    let ghost w = v@.subrange(lo as int, hi as int);
    if p.len() > hi - lo {
        return false;
    }
    let at = hi - p.len();
    assert(w.subrange(w.len() - p@.len(), w.len() as int) =~= v@.subrange(at as int, at + p@.len()));
    stands_at(v, hi, at, p)
}

/// Finds the first place in the window `[lo, hi)` at which `p` stands.
pub fn find_in_window(v: &Vec<char>, lo: usize, hi: usize, p: &Vec<char>) -> (at: Option<usize>)
    requires
        lo <= hi <= v@.len(),
    ensures
        match at {
            Some(i) => lo <= i && i + p@.len() <= hi && first_at(
                v@.subrange(lo as int, hi as int),
                p@,
                0,
            ) == Some(i - lo),
            None => first_at(v@.subrange(lo as int, hi as int), p@, 0) is None,
        },
{
    let ghost w = v@.subrange(lo as int, hi as int);
    let mut i: usize = lo;
    while i <= hi
        invariant
            lo <= i <= hi + 1,
            hi <= v@.len(),
            w == v@.subrange(lo as int, hi as int),
            first_at(w, p@, 0) == first_at(w, p@, i - lo),
        decreases hi + 1 - i,
    {
        assert(i + p@.len() <= hi ==> w.subrange(i - lo, i - lo + p@.len()) =~= v@.subrange(
            i as int,
            i + p@.len(),
        ));
        if stands_at(v, hi, i, p) {
            return Some(i);
        }
        if p.len() > hi - i {
            return None;
        }
        assert(i < hi) by {
            if i == hi {
                assert(v@.subrange(i as int, i as int) =~= p@);
            }
        }
        i += 1;
    }
    None
}

/// Finds where the part of the window `[lo, hi)` after its last `c` begins.
pub fn find_tail(v: &Vec<char>, lo: usize, hi: usize, c: char) -> (at: usize)
    requires
        lo <= hi <= v@.len(),
    ensures
        lo <= at <= hi,
        v@.subrange(at as int, hi as int) == after_last(v@.subrange(lo as int, hi as int), c),
{
    let ghost w = v@.subrange(lo as int, hi as int);
    let mut i: usize = hi;
    while lo < i && v[i - 1] != c
        invariant
            lo <= i <= hi <= v@.len(),
            w == v@.subrange(lo as int, hi as int),
            tail_start(w, c, w.len() as int) == tail_start(w, c, i - lo),
        decreases i - lo,
    {
        assert(w[i - lo - 1] == v@[i - 1]);
        i -= 1;
    }
    assert(tail_start(w, c, i - lo) == i - lo) by {
        if lo < i {
            assert(w[i - lo - 1] == v@[i - 1]);
        }
    }
    assert(v@.subrange(i as int, hi as int) =~= w.subrange(i - lo, w.len() as int));
    i
}

/// Finds the last word of the window `[lo, hi)`.
pub fn find_last_token(v: &Vec<char>, lo: usize, hi: usize) -> (r: (usize, usize))
    requires
        lo <= hi <= v@.len(),
    ensures
        lo <= r.0 <= r.1 <= hi,
        v@.subrange(r.0 as int, r.1 as int) == last_token(v@.subrange(lo as int, hi as int)),
{
    let ghost w = v@.subrange(lo as int, hi as int);
    let mut b: usize = hi;
    while lo < b && is_white_space(v[b - 1])
        invariant
            lo <= b <= hi <= v@.len(),
            w == v@.subrange(lo as int, hi as int),
            drop_space(w, 0, w.len() as int) == drop_space(w, 0, b - lo),
        decreases b - lo,
    {
        assert(w[b - lo - 1] == v@[b - 1]);
        b -= 1;
    }
    assert(drop_space(w, 0, b - lo) == b - lo) by {
        if lo < b {
            assert(w[b - lo - 1] == v@[b - 1]);
        }
    }
    let mut a: usize = b;
    while lo < a && !is_white_space(v[a - 1])
        invariant
            lo <= a <= b <= hi <= v@.len(),
            w == v@.subrange(lo as int, hi as int),
            token_start(w, b - lo) == token_start(w, a - lo),
        decreases a - lo,
    {
        assert(w[a - lo - 1] == v@[a - 1]);
        a -= 1;
    }
    assert(token_start(w, a - lo) == a - lo) by {
        if lo < a {
            assert(w[a - lo - 1] == v@[a - 1]);
        }
    }
    assert(v@.subrange(a as int, b as int) =~= w.subrange(a - lo, b - lo));
    (a, b)
}

} // verus!
