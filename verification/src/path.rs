//! Slash-separated archive paths: their components, the directory test, the
//! file name and the extension.
//!
//! A path is read as a sequence of components. Empty pieces (`a//b`, a
//! trailing `/`) do not count, and neither does a `.` piece unless it opens
//! the path. A leading `/` is a component of its own.

use vstd::prelude::*;
use vstd::string::*;
use crate::text::{chars_of, same_run};

verus! {

/// Whether the piece `s[start..end)` is a component: it is not empty, and it
/// is not a `.` that stands after the beginning of the path.
pub open spec fn keeps(s: Seq<char>, start: int, end: int) -> bool {
    start < end && !(end == start + 1 && s[start] == '.' && start != 0)
}

/// The piece `s[start..end)` as a list of zero or one components.
pub open spec fn piece(s: Seq<char>, start: int, end: int) -> Seq<Seq<char>> {
    if keeps(s, start, end) {
        seq![s.subrange(start, end)]
    } else {
        Seq::empty()
    }
}

/// The components found from `pos` on, where the piece under way began at
/// `start`.
pub open spec fn pieces(s: Seq<char>, start: int, pos: int) -> Seq<Seq<char>>
    decreases s.len() - pos,
{
    if pos >= s.len() {
        piece(s, start, s.len() as int)
    } else if s[pos] == '/' {
        piece(s, start, pos) + pieces(s, pos + 1, pos + 1)
    } else {
        pieces(s, start, pos + 1)
    }
}

/// The root component of an absolute path, as a list of zero or one
/// components.
pub open spec fn root(s: Seq<char>) -> Seq<Seq<char>> {
    if s.len() > 0 && s[0] == '/' {
        seq![s.subrange(0, 1)]
    } else {
        Seq::empty()
    }
}

/// The components of a path, first to last.
pub open spec fn components(s: Seq<char>) -> Seq<Seq<char>> {
    root(s) + pieces(s, 0, 0)
}

/// `path` lies under the directory `prefix` (or is that directory): the
/// components of `prefix` open the components of `path`.
pub open spec fn is_under(path: Seq<char>, prefix: Seq<char>) -> bool {
    let p = components(prefix);
    let c = components(path);
    p.len() <= c.len() && forall|i: int| 0 <= i < p.len() ==> c[i] == p[i]
}

/// Whether a component names a file or directory, that is, whether it is
/// none of `/`, `.` and `..`.
pub open spec fn is_name(c: Seq<char>) -> bool {
    c != seq!['/'] && c != seq!['.'] && c != seq!['.', '.']
}

/// The last component of a path, if it is a name.
pub open spec fn file_name(path: Seq<char>) -> Option<Seq<char>> {
    let c = components(path);
    if c.len() > 0 && is_name(c.last()) {
        Some(c.last())
    } else {
        None
    }
}

/// The position of the last `.` before `upto`, or -1 where there is none.
pub open spec fn last_dot(name: Seq<char>, upto: int) -> int
    decreases upto,
{
    if upto <= 0 {
        -1
    } else if name[upto - 1] == '.' {
        upto - 1
    } else {
        last_dot(name, upto - 1)
    }
}

/// What follows the last `.` of a file name. A name without a `.`, and one
/// whose only `.` opens it, has the empty extension.
pub open spec fn extension(name: Seq<char>) -> Seq<char> {
    let dot = last_dot(name, name.len() as int);
    if dot > 0 {
        name.subrange(dot + 1, name.len() as int)
    } else {
        Seq::empty()
    }
}

/// The bounds of a component within its path.
struct Span {
    start: usize,
    end: usize,
}

spec fn span_texts(spans: Seq<Span>, s: Seq<char>) -> Seq<Seq<char>> {
    Seq::new(spans.len(), |i: int| s.subrange(spans[i].start as int, spans[i].end as int))
}

spec fn spans_fit(spans: Seq<Span>, s: Seq<char>) -> bool {
    forall|i: int| 0 <= i < spans.len() ==> (#[trigger] spans[i]).start <= spans[i].end <= s.len()
}

proof fn lemma_span_push(spans: Seq<Span>, span: Span, s: Seq<char>)
    ensures
        span_texts(spans.push(span), s) == span_texts(spans, s) + seq![
            s.subrange(span.start as int, span.end as int),
        ],
{
}

fn keeps_piece(s: &Vec<char>, start: usize, end: usize) -> (r: bool)
    requires
        start <= end <= s.len(),
    ensures
        r == keeps(s@, start as int, end as int),
{
    start < end && !(end - start == 1 && s[start] == '.' && start != 0)
}

/// Finds the components of `s`.
fn split(s: &Vec<char>) -> (spans: Vec<Span>)
    ensures
        spans_fit(spans@, s@),
        span_texts(spans@, s@) == components(s@),
{
    let mut spans: Vec<Span> = Vec::new();
    if s.len() > 0 && s[0] == '/' {
        proof {
            lemma_span_push(spans@, Span { start: 0, end: 1 }, s@);
        }
        spans.push(Span { start: 0, end: 1 });
    }
    let mut start: usize = 0;
    let mut pos: usize = 0;
    while pos < s.len()
        invariant
            start <= pos <= s.len(),
            spans_fit(spans@, s@),
            components(s@) == span_texts(spans@, s@) + pieces(s@, start as int, pos as int),
        decreases s.len() - pos,
    {
        if s[pos] == '/' {
            if keeps_piece(s, start, pos) {
                proof {
                    lemma_span_push(spans@, Span { start, end: pos }, s@);
                }
                spans.push(Span { start, end: pos });
            }
            start = pos + 1;
        }
        pos += 1;
    }
    if keeps_piece(s, start, pos) {
        proof {
            lemma_span_push(spans@, Span { start, end: pos }, s@);
        }
        spans.push(Span { start, end: pos });
    }
    spans
}

/// Directory test: whether `path` lies under `prefix`.
pub fn under(path: &str, prefix: &str) -> (r: bool)
    ensures
        r == is_under(path@, prefix@),
{
    let pc = chars_of(path);
    let qc = chars_of(prefix);
    let ps = split(&pc);
    let qs = split(&qc);
    let ghost c = components(path@);
    let ghost p = components(prefix@);
    if qs.len() > ps.len() {
        return false;
    }
    let mut i: usize = 0;
    while i < qs.len()
        invariant
            i <= qs.len() <= ps.len(),
            pc@ == path@,
            qc@ == prefix@,
            spans_fit(ps@, pc@),
            spans_fit(qs@, qc@),
            c == span_texts(ps@, pc@),
            p == span_texts(qs@, qc@),
            c == components(path@),
            p == components(prefix@),
            forall|j: int| 0 <= j < i ==> c[j] == p[j],
        decreases qs.len() - i,
    {
        let a_start = ps[i].start;
        let a_len = ps[i].end - ps[i].start;
        let b_start = qs[i].start;
        let b_len = qs[i].end - qs[i].start;
        assert(p[i as int].len() == b_len);
        if a_len != b_len {
            return false;
        }
        if !same_run(&pc, a_start, &qc, b_start, a_len) {
            return false;
        }
        i += 1;
    }
    true
}

/// The file name of `path`, owned.
pub fn name_of(path: &str) -> (r: Option<String>)
    ensures
        match r {
            Some(name) => file_name(path@) == Some(name@),
            None => file_name(path@) is None,
        },
{
    let pc = chars_of(path);
    let ps = split(&pc);
    if ps.len() == 0 {
        return None;
    }
    let start = ps[ps.len() - 1].start;
    let end = ps[ps.len() - 1].end;
    let ghost last = components(path@).last();
    let len = end - start;
    if len == 1 && (pc[start] == '/' || pc[start] == '.') {
        assert(last =~= seq![pc@[start as int]]);
        return None;
    }
    if len == 2 && pc[start] == '.' && pc[start + 1] == '.' {
        assert(last =~= seq!['.', '.']);
        return None;
    }
    assert(last.len() == 1 ==> last[0] == pc@[start as int]);
    assert(last == seq!['.', '.'] ==> last.len() == 2);
    Some(path.substring_char(start, end).to_owned())
}

/// Whether the extension of the file name `name` is `wanted`.
pub fn has_extension(name: &str, wanted: &str) -> (r: bool)
    ensures
        r == (extension(name@) == wanted@),
{
    let nc = chars_of(name);
    let wc = chars_of(wanted);
    let mut upto: usize = nc.len();
    while upto > 0 && nc[upto - 1] != '.'
        invariant
            upto <= nc.len(),
            last_dot(nc@, nc.len() as int) == last_dot(nc@, upto as int),
        decreases upto,
    {
        upto -= 1;
    }
    assert(wc@.subrange(0, wc.len() as int) =~= wc@);
    if upto >= 2 {
        // the last dot stands at `upto - 1`, which is not the first position
        let from = upto;
        let len = nc.len() - from;
        if len != wc.len() {
            return false;
        }
        same_run(&nc, from, &wc, 0, len)
    } else {
        let r = wc.len() == 0;
        assert(r == (wc@ =~= Seq::<char>::empty()));
        r
    }
}

} // verus!
