//! Character-level helpers shared by the path and selection rules.

use vstd::prelude::*;
use vstd::string::*;

verus! {

/// The characters of `s`, in order.
pub fn chars_of(s: &str) -> (v: Vec<char>)
    ensures
        v@ == s@,
{
    let mut v: Vec<char> = Vec::new();
    for c in it: s.chars()
        invariant
            it.seq() == s@,
            v@ == it.seq().take(it.index() as int),
    {
        v.push(c);
    }
    v
}

/// Whether the `len` characters of `a` from `a_from` equal the `len`
/// characters of `b` from `b_from`.
pub(crate) fn same_run(
    a: &Vec<char>,
    a_from: usize,
    b: &Vec<char>,
    b_from: usize,
    len: usize,
) -> (r: bool)
    requires
        a_from + len <= a.len(),
        b_from + len <= b.len(),
    ensures
        r == (a@.subrange(a_from as int, a_from + len) == b@.subrange(
            b_from as int,
            b_from + len,
        )),
{
    let ghost x = a@.subrange(a_from as int, a_from + len);
    let ghost y = b@.subrange(b_from as int, b_from + len);
    let mut k: usize = 0;
    while k < len
        invariant
            k <= len,
            a_from + len <= a.len(),
            b_from + len <= b.len(),
            x == a@.subrange(a_from as int, a_from + len),
            y == b@.subrange(b_from as int, b_from + len),
            forall|j: int| 0 <= j < k ==> x[j] == y[j],
        decreases len - k,
    {
        if a[a_from + k] != b[b_from + k] {
            assert(x[k as int] != y[k as int]);
            return false;
        }
        k += 1;
    }
    assert(x =~= y);
    true
}

/// The texts of a list of strings.
pub open spec fn texts(strings: Seq<String>) -> Seq<Seq<char>> {
    Seq::new(strings.len(), |i: int| strings[i]@)
}

/// `needle` stands in `hay` at position `at`.
pub open spec fn occurs_at(hay: Seq<char>, needle: Seq<char>, at: int) -> bool {
    &&& 0 <= at
    &&& at + needle.len() <= hay.len()
    &&& hay.subrange(at, at + needle.len()) == needle
}

/// `needle` stands somewhere in `hay` as a contiguous run of characters.
/// The empty string stands in every string.
pub open spec fn contains(hay: Seq<char>, needle: Seq<char>) -> bool {
    exists|at: int| occurs_at(hay, needle, at)
}

/// Substring test.
pub fn contains_str(hay: &str, needle: &str) -> (r: bool)
    ensures
        r == contains(hay@, needle@),
{
    let h = chars_of(hay);
    let n = chars_of(needle);
    if n.len() > h.len() {
        return false;
    }
    let last: usize = h.len() - n.len();
    let mut at: usize = 0;
    loop
        invariant
            at <= last,
            last == h.len() - n.len(),
            h@ == hay@,
            n@ == needle@,
            n@.subrange(0, n.len() as int) == n@,
            forall|j: int| 0 <= j < at ==> !occurs_at(h@, n@, j),
        decreases last - at,
    {
        if same_run(&h, at, &n, 0, n.len()) {
            assert(occurs_at(h@, n@, at as int));
            return true;
        }
        if at == last {
            return false;
        }
        at += 1;
    }
}

} // verus!
