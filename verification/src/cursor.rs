//! Reading a text line by line, as the report parsers do.
//!
//! A parser holds the lines of its input and the index of the current line.
//! A line past the end reads as empty. The spec functions here describe one
//! step of such a reader; each parser combines them into its grammar.

use vstd::prelude::*;
use crate::errors::{AicedError, opt_view};
use crate::text::{
    views, trim, starts_with, to_chars, trim_chars, starts_with_chars, chars_eq, copy_range,
    push_chars,
};

verus! {

/// What a parse error reports: the kind, the line, the reason and the text involved.
pub struct ParseFailure {
    pub kind: Seq<char>,
    pub line: Option<usize>,
    pub reason: Seq<char>,
    pub context: Option<Seq<char>>,
}

/// A parse failure at line `line`.
pub open spec fn failure(kind: Seq<char>, line: int, reason: Seq<char>, context: Seq<char>) -> ParseFailure {
    ParseFailure { kind, line: Some(line as usize), reason, context: Some(context) }
}

/// `e` is the parse error that `f` describes.
pub open spec fn reports(e: AicedError, f: ParseFailure) -> bool {
    e matches AicedError::ParseError { content_type, line_number, reason, context }
        && content_type@ == f.kind && line_number == f.line && reason@ == f.reason
        && opt_view(context) == f.context
}

/// The result of one parsing step: a value and the line after it, a failure
/// and the line where it stopped, or a reader that never moves on.
pub enum Parsed<T> {
    Done { value: T, at: int },
    Failed { failure: ParseFailure, at: int },
    Stalls,
}

/// The line at index `p`, or an empty line past the end.
pub open spec fn line_at(ls: Seq<Seq<char>>, p: int) -> Seq<char> {
    if 0 <= p < ls.len() {
        ls[p]
    } else {
        Seq::empty()
    }
}

/// Lines whose trimmed text starts with `m`.
pub open spec fn trimmed_starts(m: Seq<char>) -> spec_fn(Seq<char>) -> bool {
    |l: Seq<char>| starts_with(trim(l), m)
}

/// Lines that start with `m`.
pub open spec fn raw_starts(m: Seq<char>) -> spec_fn(Seq<char>) -> bool {
    |l: Seq<char>| starts_with(l, m)
}

/// Lines whose trimmed text starts with `m1` or with `m2`.
pub open spec fn trimmed_starts_either(m1: Seq<char>, m2: Seq<char>) -> spec_fn(Seq<char>) -> bool {
    |l: Seq<char>| starts_with(trim(l), m1) || starts_with(trim(l), m2)
}

/// Lines that start with `m1` or with `m2`.
pub open spec fn raw_starts_either(m1: Seq<char>, m2: Seq<char>) -> spec_fn(Seq<char>) -> bool {
    |l: Seq<char>| starts_with(l, m1) || starts_with(l, m2)
}

/// The first line at or after `p` that `stop` accepts; the number of lines if
/// there is none, and `p` itself when `p` is already past the end.
pub open spec fn scan(ls: Seq<Seq<char>>, p: int, stop: spec_fn(Seq<char>) -> bool) -> int
    decreases ls.len() - p,
{
    if p < 0 || p >= ls.len() {
        p
    } else if stop(ls[p]) {
        p
    } else {
        scan(ls, p + 1, stop)
    }
}

/// A scan ends at the first line that `stop` accepts.
pub proof fn lemma_scan(ls: Seq<Seq<char>>, p: int, i: int, stop: spec_fn(Seq<char>) -> bool)
    requires
        0 <= p <= i,
        forall|k: int| p <= k < i ==> k < ls.len() && !stop(#[trigger] ls[k]),
        i >= ls.len() || stop(ls[i]),
        i > ls.len() ==> i == p,
    ensures
        scan(ls, p, stop) == i,
    decreases i - p,
{
    if p < i {
        lemma_scan(ls, p + 1, i, stop);
    }
}

/// The failure of a line that does not start with the expected marker.
pub open spec fn expect_failure(ls: Seq<Seq<char>>, p: int, expected: Seq<char>) -> ParseFailure {
    failure("expect_line"@, p + 1, expected, trim(line_at(ls, p)))
}

/// The value after `prefix` on line `p`, trimmed, when that line starts with it.
/// A line past the end is empty and holds no field.
pub open spec fn field_value(ls: Seq<Seq<char>>, p: int, prefix: Seq<char>) -> Option<Seq<char>> {
    if 0 <= p < ls.len() && starts_with(ls[p], prefix) {
        Some(trim(ls[p].skip(prefix.len() as int)))
    } else {
        None
    }
}

/// Lines whose trimmed text is exactly `m`.
pub open spec fn trimmed_equals(m: Seq<char>) -> spec_fn(Seq<char>) -> bool {
    |l: Seq<char>| trim(l) == m
}

/// The outcome of a parsing step that returned `res` and left the reader at `pos`
/// is the one that `expected` describes, with values compared through `view`.
pub open spec fn agrees<T, V>(
    res: Result<T, AicedError>,
    pos: int,
    expected: Parsed<V>,
    view: spec_fn(T) -> V,
) -> bool {
    match expected {
        Parsed::Done { value, at } => res matches Ok(v) && view(v) == value && pos == at,
        Parsed::Failed { failure, at } => res matches Err(e) && reports(e, failure) && pos == at,
        Parsed::Stalls => false,
    }
}

/// A failed step carried over to a step of another result type.
pub open spec fn lift<A, B>(r: Parsed<A>) -> Parsed<B> {
    match r {
        Parsed::Failed { failure, at } => Parsed::Failed { failure, at },
        _ => Parsed::Stalls,
    }
}

/// The line at `p`, or an empty line past the end.
pub fn line_chars(lines: &Vec<Vec<char>>, p: usize) -> (res: Vec<char>)
    ensures
        res@ == line_at(views(lines@), p as int),
{
    if p < lines.len() {
        let l = &lines[p];
        let r = copy_range(l.as_slice(), 0, l.len());
        assert(r@ =~= views(lines@)[p as int]);
        r
    } else {
        Vec::new()
    }
}

/// The trimmed line at `p`.
pub fn trimmed_line(lines: &Vec<Vec<char>>, p: usize) -> (res: Vec<char>)
    ensures
        res@ == trim(line_at(views(lines@), p as int)),
{
    let l = line_chars(lines, p);
    trim_chars(l.as_slice())
}

/// Whether the trimmed line at `p` starts with `m`.
pub fn trimmed_starts_with(lines: &Vec<Vec<char>>, p: usize, m: &str) -> (res: bool)
    ensures
        res == starts_with(trim(line_at(views(lines@), p as int)), m@),
        res == trimmed_starts(m@)(line_at(views(lines@), p as int)),
{
    let t = trimmed_line(lines, p);
    let mc = to_chars(m);
    starts_with_chars(t.as_slice(), mc.as_slice())
}

/// Whether the line at `p` starts with `m`.
pub fn raw_starts_with(lines: &Vec<Vec<char>>, p: usize, m: &str) -> (res: bool)
    ensures
        res == starts_with(line_at(views(lines@), p as int), m@),
        res == raw_starts(m@)(line_at(views(lines@), p as int)),
{
    let l = line_chars(lines, p);
    let mc = to_chars(m);
    starts_with_chars(l.as_slice(), mc.as_slice())
}

/// Whether the line at `p` holds only white space.
pub fn blank_line(lines: &Vec<Vec<char>>, p: usize) -> (res: bool)
    ensures
        res == (trim(line_at(views(lines@), p as int)).len() == 0),
{
    let t = trimmed_line(lines, p);
    t.len() == 0
}

/// Whether the trimmed line at `p` is exactly `m`.
pub fn trimmed_is(lines: &Vec<Vec<char>>, p: usize, m: &str) -> (res: bool)
    ensures
        res == (trim(line_at(views(lines@), p as int)) == m@),
{
    let t = trimmed_line(lines, p);
    let mc = to_chars(m);
    chars_eq(t.as_slice(), mc.as_slice())
}

/// The value of the field `prefix` on line `p`, if the line starts with it.
pub fn field_at(lines: &Vec<Vec<char>>, p: usize, prefix: &str) -> (res: Option<Vec<char>>)
    ensures
        match res {
            Some(v) => field_value(views(lines@), p as int, prefix@) == Some(v@),
            None => field_value(views(lines@), p as int, prefix@) is None,
        },
{
    if p >= lines.len() {
        return None;
    }
    let l = line_chars(lines, p);
    let pc = to_chars(prefix);
    if starts_with_chars(l.as_slice(), pc.as_slice()) {
        let rest = copy_range(l.as_slice(), pc.len(), l.len());
        assert(rest@ =~= l@.skip(prefix@.len() as int));
        Some(trim_chars(rest.as_slice()))
    } else {
        None
    }
}

/// Whether the characters start with `m`.
pub fn chars_start_with(s: &[char], m: &str) -> (res: bool)
    ensures
        res == starts_with(s@, m@),
{
    let mc = to_chars(m);
    starts_with_chars(s, mc.as_slice())
}

/// Whether the characters are exactly `m`.
pub fn chars_are(s: &[char], m: &str) -> (res: bool)
    ensures
        res == (s@ == m@),
{
    let mc = to_chars(m);
    chars_eq(s, mc.as_slice())
}

/// The first line at or after `p` whose trimmed text starts with `m`.
pub fn scan_trimmed(lines: &Vec<Vec<char>>, p: usize, m: &str) -> (res: usize)
    ensures
        res as int == scan(views(lines@), p as int, trimmed_starts(m@)),
        res >= p,
        res <= lines@.len() || res == p,
        res < lines@.len() ==> trimmed_starts(m@)(views(lines@)[res as int]),
{
    let mut i = p;
    while i < lines.len() && !trimmed_starts_with(lines, i, m)
        invariant
            p <= i,
            i <= lines@.len() || i == p,
            forall|k: int| p <= k < i ==> k < views(lines@).len() && !trimmed_starts(m@)(
                #[trigger] views(lines@)[k],
            ),
        decreases lines@.len() - i,
    {
        assert(line_at(views(lines@), i as int) == views(lines@)[i as int]);
        i = i + 1;
    }
    proof {
        if i < lines.len() {
            assert(line_at(views(lines@), i as int) == views(lines@)[i as int]);
        }
        lemma_scan(views(lines@), p as int, i as int, trimmed_starts(m@));
    }
    i
}

/// The first line at or after `p` that starts with `m`.
pub fn scan_raw(lines: &Vec<Vec<char>>, p: usize, m: &str) -> (res: usize)
    ensures
        res as int == scan(views(lines@), p as int, raw_starts(m@)),
        res >= p,
        res <= lines@.len() || res == p,
        res < lines@.len() ==> raw_starts(m@)(views(lines@)[res as int]),
{
    let mut i = p;
    while i < lines.len() && !raw_starts_with(lines, i, m)
        invariant
            p <= i,
            i <= lines@.len() || i == p,
            forall|k: int| p <= k < i ==> k < views(lines@).len() && !raw_starts(m@)(
                #[trigger] views(lines@)[k],
            ),
        decreases lines@.len() - i,
    {
        assert(line_at(views(lines@), i as int) == views(lines@)[i as int]);
        i = i + 1;
    }
    proof {
        if i < lines.len() {
            assert(line_at(views(lines@), i as int) == views(lines@)[i as int]);
        }
        lemma_scan(views(lines@), p as int, i as int, raw_starts(m@));
    }
    i
}

/// The first line at or after `p` whose trimmed text starts with `m1` or `m2`.
pub fn scan_trimmed_either(lines: &Vec<Vec<char>>, p: usize, m1: &str, m2: &str) -> (res: usize)
    ensures
        res as int == scan(views(lines@), p as int, trimmed_starts_either(m1@, m2@)),
        res >= p,
        res <= lines@.len() || res == p,
        res < lines@.len() ==> trimmed_starts_either(m1@, m2@)(views(lines@)[res as int]),
{
    let mut i = p;
    while i < lines.len() && !(trimmed_starts_with(lines, i, m1) || trimmed_starts_with(lines, i, m2))
        invariant
            p <= i,
            i <= lines@.len() || i == p,
            forall|k: int| p <= k < i ==> k < views(lines@).len() && !trimmed_starts_either(m1@, m2@)(
                #[trigger] views(lines@)[k],
            ),
        decreases lines@.len() - i,
    {
        assert(line_at(views(lines@), i as int) == views(lines@)[i as int]);
        i = i + 1;
    }
    proof {
        if i < lines.len() {
            assert(line_at(views(lines@), i as int) == views(lines@)[i as int]);
        }
        lemma_scan(views(lines@), p as int, i as int, trimmed_starts_either(m1@, m2@));
    }
    i
}

/// The first line at or after `p` that starts with `m1` or `m2`.
pub fn scan_raw_either(lines: &Vec<Vec<char>>, p: usize, m1: &str, m2: &str) -> (res: usize)
    ensures
        res as int == scan(views(lines@), p as int, raw_starts_either(m1@, m2@)),
        res >= p,
        res <= lines@.len() || res == p,
        res < lines@.len() ==> raw_starts_either(m1@, m2@)(views(lines@)[res as int]),
{
    let mut i = p;
    while i < lines.len() && !(raw_starts_with(lines, i, m1) || raw_starts_with(lines, i, m2))
        invariant
            p <= i,
            i <= lines@.len() || i == p,
            forall|k: int| p <= k < i ==> k < views(lines@).len() && !raw_starts_either(m1@, m2@)(
                #[trigger] views(lines@)[k],
            ),
        decreases lines@.len() - i,
    {
        assert(line_at(views(lines@), i as int) == views(lines@)[i as int]);
        i = i + 1;
    }
    proof {
        if i < lines.len() {
            assert(line_at(views(lines@), i as int) == views(lines@)[i as int]);
        }
        lemma_scan(views(lines@), p as int, i as int, raw_starts_either(m1@, m2@));
    }
    i
}

/// The first line at or after `p` whose trimmed text is exactly `m`.
pub fn scan_trimmed_equals(lines: &Vec<Vec<char>>, p: usize, m: &str) -> (res: usize)
    ensures
        res as int == scan(views(lines@), p as int, trimmed_equals(m@)),
        res >= p,
        res <= lines@.len() || res == p,
        res < lines@.len() ==> trimmed_equals(m@)(views(lines@)[res as int]),
{
    let mut i = p;
    while i < lines.len() && !trimmed_is(lines, i, m)
        invariant
            p <= i,
            i <= lines@.len() || i == p,
            forall|k: int| p <= k < i ==> k < views(lines@).len() && !trimmed_equals(m@)(
                #[trigger] views(lines@)[k],
            ),
        decreases lines@.len() - i,
    {
        assert(line_at(views(lines@), i as int) == views(lines@)[i as int]);
        i = i + 1;
    }
    proof {
        if i < lines.len() {
            assert(line_at(views(lines@), i as int) == views(lines@)[i as int]);
        }
        lemma_scan(views(lines@), p as int, i as int, trimmed_equals(m@));
    }
    i
}

/// The lines from `p` to `k`, as character vectors.
pub fn copy_lines(lines: &Vec<Vec<char>>, p: usize, k: usize) -> (res: Vec<Vec<char>>)
    requires
        p <= k <= lines@.len(),
    ensures
        views(res@) == views(lines@).subrange(p as int, k as int),
{
    let mut res: Vec<Vec<char>> = Vec::new();
    let mut i = p;
    while i < k
        invariant
            p <= i <= k <= lines@.len(),
            views(res@) == views(lines@).subrange(p as int, i as int),
        decreases k - i,
    {
        let l = line_chars(lines, i);
        let ghost before = views(res@);
        res.push(l);
        assert(views(res@) =~= before.push(views(lines@)[i as int]));
        i = i + 1;
        assert(views(res@) =~= views(lines@).subrange(p as int, i as int));
    }
    res
}

/// A `String` holding the characters of `v`.
pub fn chars_string(v: &Vec<char>) -> (res: String)
    ensures
        res@ == v@,
{
    let mut s = String::new();
    push_chars(&mut s, v.as_slice());
    assert(s@ =~= v@);
    s
}

/// The strings holding the character vectors, in order.
pub fn strings_of(v: &Vec<Vec<char>>) -> (res: Vec<String>)
    ensures
        crate::text::string_views(res@) == views(v@),
{
    let mut res: Vec<String> = Vec::new();
    let mut i: usize = 0;
    while i < v.len()
        invariant
            i <= v@.len(),
            crate::text::string_views(res@) == views(v@).take(i as int),
        decreases v@.len() - i,
    {
        let s = chars_string(&v[i]);
        let ghost before = crate::text::string_views(res@);
        res.push(s);
        assert(crate::text::string_views(res@) =~= before.push(v@[i as int]@));
        i = i + 1;
        assert(crate::text::string_views(res@) =~= views(v@).take(i as int));
    }
    assert(views(v@).take(v@.len() as int) =~= views(v@));
    res
}

} // verus!
