//! A simpler reader of the analysis report: a leading `ANALYSIS_SUMMARY:`
//! section and `CHANGE:` blocks with file, reason and severity, whose errors
//! are plain messages.

use vstd::prelude::*;
use crate::text::{
    views, trim, starts_with, parse_usize, decimal, join, find_from, to_chars, from_chars,
    trim_chars, starts_with_chars, parse_usize_chars, push_decimal, lines_of, lines_of_str,
    copy_range, find_char, join_chars, string_views, lemma_trim_keeps_prefix, push_chars,
};
use crate::cursor::{
    line_at, trimmed_starts, raw_starts, raw_starts_either, trimmed_starts_either, scan,
    line_chars, trimmed_line, trimmed_starts_with, raw_starts_with, blank_line, scan_trimmed,
    scan_raw, scan_raw_either, scan_trimmed_either, copy_lines, chars_string, strings_of,
    chars_start_with, chars_are,
};
use crate::errors::owned;
use crate::line_change::{LineChange, LineChangeView, change_views};
use crate::file_change::{FileChange, FileChangeView, file_change_views};
use crate::report::{AnalysisResponse, AnalysisResponseView};

verus! {

/// The result of one reading step: a value and the line after it, or an error
/// message and the line where the reader stopped.
pub enum Step<T> {
    Done { value: T, at: int },
    Failed { message: Seq<char>, at: int },
}

/// A failed step carried over to a step of another result type.
pub open spec fn carry<A, B>(r: Step<A>) -> Step<B> {
    match r {
        Step::Failed { message, at } => Step::Failed { message, at },
        Step::Done { at, .. } => Step::Failed { message: Seq::empty(), at },
    }
}

/// The step that returned `res` and left the reader at `pos` is `expected`.
pub open spec fn follows<T, V>(res: Result<T, String>, pos: int, expected: Step<V>, view: spec_fn(T) -> V) -> bool {
    match expected {
        Step::Done { value, at } => res matches Ok(v) && view(v) == value && pos == at,
        Step::Failed { message, at } => res matches Err(m) && m@ == message && pos == at,
    }
}

/// The decimal notation of a line number.
pub open spec fn num(n: int) -> Seq<char> {
    decimal(n as nat)
}

/// `s` without its first space (`str::replacen(" ", "", 1)`).
pub open spec fn without_first_space(s: Seq<char>) -> Seq<char> {
    let i = find_from(s, ' ', 0);
    if i < s.len() {
        s.take(i) + s.skip(i + 1)
    } else {
        s
    }
}

/// The message of a line that does not start with the field `prefix`.
pub open spec fn field_message(ls: Seq<Seq<char>>, p: int, prefix: Seq<char>) -> Seq<char> {
    "Expected '"@ + prefix + "' at line "@ + num(p + 1) + ", found '"@ + line_at(ls, p)
        + "'\nNext line: '"@ + line_at(ls, p + 1) + "'"@
}

/// The message of a line that does not start with the marker `expected`.
pub open spec fn expect_message(ls: Seq<Seq<char>>, p: int, expected: Seq<char>) -> Seq<char> {
    "Expected '"@ + expected + "' at line "@ + num(p + 1) + ", found '"@ + trim(line_at(ls, p))
        + "'\nContext: Previous line: '"@ + (if p > 0 {
        line_at(ls, p - 1)
    } else {
        Seq::empty()
    }) + "', Next line: '"@ + line_at(ls, p + 1) + "'"@
}

/// A `PREFIX value` line: the rest of the line without its first space.
pub open spec fn field_step(ls: Seq<Seq<char>>, p: int, prefix: Seq<char>) -> Step<Seq<char>> {
    if 0 <= p < ls.len() && starts_with(ls[p], prefix) {
        Step::Done { value: without_first_space(ls[p].skip(prefix.len() as int)), at: p + 1 }
    } else {
        Step::Failed { message: field_message(ls, p, prefix), at: p }
    }
}

/// A `PREFIX number` line.
pub open spec fn number_step(ls: Seq<Seq<char>>, p: int, prefix: Seq<char>) -> Step<usize> {
    match field_step(ls, p, prefix) {
        Step::Done { value, at } => match parse_usize(value) {
            Some(n) => Step::Done { value: n, at },
            None => Step::Failed {
                message: "Invalid number '"@ + value + "' for field "@ + prefix,
                at,
            },
        },
        other => carry(other),
    }
}

/// The lines up to the first whose trimmed text starts with `end`, and the line after it.
pub open spec fn lines_step(ls: Seq<Seq<char>>, p: int, end: Seq<char>) -> Step<Seq<Seq<char>>> {
    let k = scan(ls, p, trimmed_starts(end));
    if k >= ls.len() || k < 0 {
        Step::Failed { message: expect_message(ls, k, end), at: k }
    } else {
        Step::Done { value: ls.subrange(p, k), at: k + 1 }
    }
}

/// A `marker` line, then the lines up to `end`.
pub open spec fn block_step(ls: Seq<Seq<char>>, p: int, marker: Seq<char>, end: Seq<char>) -> Step<Seq<Seq<char>>> {
    if !starts_with(trim(line_at(ls, p)), marker) {
        Step::Failed { message: expect_message(ls, p, marker), at: p }
    } else {
        lines_step(ls, p + 1, end)
    }
}

/// The fields of an edit of kind `a`, from line `q`.
pub open spec fn edit_step(ls: Seq<Seq<char>>, q: int, a: Seq<char>) -> Step<LineChangeView> {
    if a == "replace"@ {
        match number_step(ls, q, "LINE:"@) {
            Step::Done { value: n, at: r } => match field_step(ls, r, "OLD:"@) {
                Step::Done { value: o, at: t } => match field_step(ls, t, "NEW:"@) {
                    Step::Done { value: w, at } => Step::Done {
                        value: LineChangeView::Replace { line_number: n, old_content: o, new_content: w },
                        at,
                    },
                    other => carry(other),
                },
                other => carry(other),
            },
            other => carry(other),
        }
    } else if a == "insert_after"@ || a == "insert_before"@ {
        match number_step(ls, q, "LINE:"@) {
            Step::Done { value: n, at: r } => match field_step(ls, r, "NEW:"@) {
                Step::Done { value: w, at } => Step::Done {
                    value: if a == "insert_after"@ {
                        LineChangeView::InsertAfter { line_number: n, new_content: w }
                    } else {
                        LineChangeView::InsertBefore { line_number: n, new_content: w }
                    },
                    at,
                },
                other => carry(other),
            },
            other => carry(other),
        }
    } else if a == "delete"@ {
        match number_step(ls, q, "LINE:"@) {
            Step::Done { value: n, at } => Step::Done {
                value: LineChangeView::Delete { line_number: n },
                at,
            },
            other => carry(other),
        }
    } else if a == "replace_range"@ {
        match number_step(ls, q, "START_LINE:"@) {
            Step::Done { value: s, at: r } => match number_step(ls, r, "END_LINE:"@) {
                Step::Done { value: e, at: t } => match block_step(ls, t, "OLD_LINES:"@, "END_OLD_LINES"@) {
                    Step::Done { value: o, at: u } => match block_step(ls, u, "NEW_LINES:"@, "END_NEW_LINES"@) {
                        Step::Done { value: w, at } => Step::Done {
                            value: LineChangeView::ReplaceRange {
                                start_line: s,
                                end_line: e,
                                old_content: o,
                                new_content: w,
                            },
                            at,
                        },
                        other => carry(other),
                    },
                    other => carry(other),
                },
                other => carry(other),
            },
            other => carry(other),
        }
    } else {
        Step::Failed { message: "Unknown action type: "@ + a, at: q }
    }
}

/// An `ACTION:` line and the fields of its kind of edit.
pub open spec fn action_step(ls: Seq<Seq<char>>, p: int) -> Step<LineChangeView> {
    match field_step(ls, p, "ACTION:"@) {
        Step::Done { value: a, at: q } => edit_step(ls, q, a),
        other => carry(other),
    }
}

/// After an edit that did not parse at line `p`: the next `ACTION:` or `END_CHANGE` line after it.
pub open spec fn skip_action(ls: Seq<Seq<char>>, p: int) -> int {
    scan(ls, p + 1, trimmed_starts_either("ACTION:"@, "END_CHANGE"@))
}

/// The fields of a change read so far.
pub struct Fields {
    pub file: Option<Seq<char>>,
    pub reason: Option<Seq<char>>,
    pub severity: Option<Seq<char>>,
}

/// No field read yet.
pub open spec fn no_fields() -> Fields {
    Fields { file: None, reason: None, severity: None }
}

/// The body of a modification from line `q` up to the line that starts with
/// `END_CHANGE`: its fields and line edits. A step always moves the reader on;
/// the bounds only make termination evident.
pub open spec fn modify_body(ls: Seq<Seq<char>>, q: int, f: Fields, acc: Seq<LineChangeView>) -> Step<(Fields, Seq<LineChangeView>)>
    decreases ls.len() + 2 - q,
{
    if q < 0 || q >= ls.len() || starts_with(ls[q], "END_CHANGE"@) {
        Step::Done { value: (f, acc), at: q }
    } else {
        let t = trim(ls[q]);
        if starts_with(t, "FILE:"@) {
            match field_step(ls, q, "FILE:"@) {
                Step::Done { value, at } => modify_body(ls, at, Fields { file: Some(value), ..f }, acc),
                other => carry(other),
            }
        } else if starts_with(t, "REASON:"@) {
            match field_step(ls, q, "REASON:"@) {
                Step::Done { value, at } => modify_body(ls, at, Fields { reason: Some(value), ..f }, acc),
                other => carry(other),
            }
        } else if starts_with(t, "SEVERITY:"@) {
            match field_step(ls, q, "SEVERITY:"@) {
                Step::Done { value, at } => modify_body(ls, at, Fields { severity: Some(value), ..f }, acc),
                other => carry(other),
            }
        } else if starts_with(t, "ACTION:"@) {
            match action_step(ls, q) {
                Step::Done { value, at } => if q < at <= ls.len() + 1 {
                    modify_body(ls, at, f, acc.push(value))
                } else {
                    Step::Done { value: (f, acc), at: q }
                },
                Step::Failed { at, .. } => {
                    let s = skip_action(ls, at);
                    if q < s <= ls.len() + 1 {
                        modify_body(ls, s, f, acc)
                    } else {
                        Step::Done { value: (f, acc), at: q }
                    }
                },
            }
        } else {
            modify_body(ls, q + 1, f, acc)
        }
    }
}

/// The first missing field, if any.
pub open spec fn missing(f: Fields) -> Option<Seq<char>> {
    if f.file is None {
        Some("Missing FILE field"@)
    } else if f.reason is None {
        Some("Missing REASON field"@)
    } else if f.severity is None {
        Some("Missing SEVERITY field"@)
    } else {
        None
    }
}

/// The `END_CHANGE` line at `r` and the fields, around a change built by `make`.
pub open spec fn finish(ls: Seq<Seq<char>>, r: int, f: Fields, c: FileChangeView) -> Step<FileChangeView> {
    if !starts_with(trim(line_at(ls, r)), "END_CHANGE"@) {
        Step::Failed { message: expect_message(ls, r, "END_CHANGE"@), at: r }
    } else {
        match missing(f) {
            Some(m) => Step::Failed { message: m, at: r + 1 },
            None => Step::Done { value: c, at: r + 1 },
        }
    }
}

/// A modification; it carries no category.
pub open spec fn modify_step(ls: Seq<Seq<char>>, p: int) -> Step<FileChangeView> {
    match modify_body(ls, p, no_fields(), Seq::empty()) {
        Step::Done { value: (f, acts), at: r } => finish(
            ls,
            r,
            f,
            FileChangeView::ModifyFile {
                file_path: f.file->0,
                reason: f.reason->0,
                severity: f.severity->0,
                category: Seq::empty(),
                line_changes: acts,
            },
        ),
        other => carry(other),
    }
}

/// The text of a content block: the lines up to `end`, joined with newlines.
pub open spec fn content_step(ls: Seq<Seq<char>>, p: int, end: Seq<char>) -> Step<Seq<char>> {
    match lines_step(ls, p, end) {
        Step::Done { value, at } => Step::Done { value: join(value, "\n"@), at },
        other => carry(other),
    }
}

/// The body of a creation from line `q` up to `END_CHANGE`: its fields and its
/// content (the last `CONTENT:` block read).
pub open spec fn create_body(ls: Seq<Seq<char>>, q: int, f: Fields, c: Seq<char>) -> Step<(Fields, Seq<char>)>
    decreases ls.len() + 2 - q,
{
    if q < 0 || q >= ls.len() || starts_with(ls[q], "END_CHANGE"@) {
        Step::Done { value: (f, c), at: q }
    } else {
        let t = trim(ls[q]);
        if starts_with(t, "FILE:"@) {
            match field_step(ls, q, "FILE:"@) {
                Step::Done { value, at } => create_body(ls, at, Fields { file: Some(value), ..f }, c),
                other => carry(other),
            }
        } else if starts_with(t, "REASON:"@) {
            match field_step(ls, q, "REASON:"@) {
                Step::Done { value, at } => create_body(ls, at, Fields { reason: Some(value), ..f }, c),
                other => carry(other),
            }
        } else if starts_with(t, "SEVERITY:"@) {
            match field_step(ls, q, "SEVERITY:"@) {
                Step::Done { value, at } => create_body(ls, at, Fields { severity: Some(value), ..f }, c),
                other => carry(other),
            }
        } else if starts_with(t, "CONTENT:"@) {
            match content_step(ls, q + 1, "END_CONTENT"@) {
                Step::Done { value, at } => if q < at <= ls.len() + 1 {
                    create_body(ls, at, f, value)
                } else {
                    Step::Done { value: (f, c), at: q }
                },
                other => carry(other),
            }
        } else {
            create_body(ls, q + 1, f, c)
        }
    }
}

/// A creation; it carries no category.
pub open spec fn create_step(ls: Seq<Seq<char>>, p: int) -> Step<FileChangeView> {
    match create_body(ls, p, no_fields(), Seq::empty()) {
        Step::Done { value: (f, c), at: r } => finish(
            ls,
            r,
            f,
            FileChangeView::CreateFile {
                file_path: f.file->0,
                reason: f.reason->0,
                severity: f.severity->0,
                category: Seq::empty(),
                content: c,
            },
        ),
        other => carry(other),
    }
}

/// The body of a deletion from line `q` up to `END_CHANGE`: its fields.
pub open spec fn delete_body(ls: Seq<Seq<char>>, q: int, f: Fields) -> Step<Fields>
    decreases ls.len() + 2 - q,
{
    if q < 0 || q >= ls.len() || starts_with(ls[q], "END_CHANGE"@) {
        Step::Done { value: f, at: q }
    } else {
        let t = trim(ls[q]);
        if starts_with(t, "FILE:"@) {
            match field_step(ls, q, "FILE:"@) {
                Step::Done { value, at } => delete_body(ls, at, Fields { file: Some(value), ..f }),
                other => carry(other),
            }
        } else if starts_with(t, "REASON:"@) {
            match field_step(ls, q, "REASON:"@) {
                Step::Done { value, at } => delete_body(ls, at, Fields { reason: Some(value), ..f }),
                other => carry(other),
            }
        } else if starts_with(t, "SEVERITY:"@) {
            match field_step(ls, q, "SEVERITY:"@) {
                Step::Done { value, at } => delete_body(ls, at, Fields { severity: Some(value), ..f }),
                other => carry(other),
            }
        } else {
            delete_body(ls, q + 1, f)
        }
    }
}

/// A deletion; it carries no category.
pub open spec fn delete_step(ls: Seq<Seq<char>>, p: int) -> Step<FileChangeView> {
    match delete_body(ls, p, no_fields()) {
        Step::Done { value: f, at: r } => finish(
            ls,
            r,
            f,
            FileChangeView::DeleteFile {
                file_path: f.file->0,
                reason: f.reason->0,
                severity: f.severity->0,
                category: Seq::empty(),
            },
        ),
        other => carry(other),
    }
}

/// A `CHANGE: kind` line and the change of that kind.
pub open spec fn change_step(ls: Seq<Seq<char>>, p: int) -> Step<FileChangeView> {
    let l = line_at(ls, p);
    if !starts_with(l, "CHANGE:"@) {
        Step::Failed { message: "Expected 'CHANGE:' at line "@ + num(p + 1), at: p }
    } else {
        let kind = trim(l.skip("CHANGE:"@.len() as int));
        if kind == "modify_file"@ {
            modify_step(ls, p + 1)
        } else if kind == "create_file"@ {
            create_step(ls, p + 1)
        } else if kind == "delete_file"@ {
            delete_step(ls, p + 1)
        } else {
            Step::Failed { message: "Unknown change type: "@ + kind, at: p + 1 }
        }
    }
}

/// After a change that did not parse at line `p`: the next line that starts
/// with `CHANGE:`, or the line after the next that starts with `END_CHANGE`.
pub open spec fn skip_change(ls: Seq<Seq<char>>, p: int) -> int {
    let k = scan(ls, p, raw_starts_either("CHANGE:"@, "END_CHANGE"@));
    if starts_with(line_at(ls, k), "END_CHANGE"@) {
        k + 1
    } else {
        k
    }
}

/// The changes from line `q` to the end; a change that does not parse is skipped.
pub open spec fn changes_from(ls: Seq<Seq<char>>, q: int, acc: Seq<FileChangeView>) -> (Seq<FileChangeView>, int)
    decreases ls.len() + 2 - q,
{
    if q < 0 || q >= ls.len() {
        (acc, q)
    } else if trim(ls[q]).len() == 0 {
        changes_from(ls, q + 1, acc)
    } else if starts_with(ls[q], "CHANGE:"@) {
        match change_step(ls, q) {
            Step::Done { value, at } => if q < at <= ls.len() + 1 {
                changes_from(ls, at, acc.push(value))
            } else {
                (acc, q)
            },
            Step::Failed { at, .. } => {
                let s = skip_change(ls, at);
                if q < s <= ls.len() + 1 {
                    changes_from(ls, s, acc)
                } else {
                    (acc, q)
                }
            },
        }
    } else {
        changes_from(ls, q + 1, acc)
    }
}

/// The non-blank lines, as they are, in order.
pub open spec fn nonblank_raw(s: Seq<Seq<char>>) -> Seq<Seq<char>>
    decreases s.len(),
{
    if s.len() == 0 {
        Seq::empty()
    } else if trim(s.last()).len() > 0 {
        nonblank_raw(s.drop_last()).push(s.last())
    } else {
        nonblank_raw(s.drop_last())
    }
}

/// The `ANALYSIS_SUMMARY:` line at `p` and the non-blank lines after it, up to
/// the first that starts with `CHANGE:`, joined with newlines.
pub open spec fn summary_step(ls: Seq<Seq<char>>, p: int) -> Step<Seq<char>> {
    if !starts_with(trim(line_at(ls, p)), "ANALYSIS_SUMMARY:"@) {
        Step::Failed { message: expect_message(ls, p, "ANALYSIS_SUMMARY:"@), at: p }
    } else {
        let j = scan(ls, p + 1, raw_starts("CHANGE:"@));
        Step::Done { value: join(nonblank_raw(ls.subrange(p + 1, j)), "\n"@), at: j }
    }
}

/// A whole report read from line `p`: the summary, then the changes.
pub open spec fn report_step(ls: Seq<Seq<char>>, p: int) -> Step<AnalysisResponseView> {
    match summary_step(ls, p) {
        Step::Done { value: s, at: r } => {
            let (cs, at) = changes_from(ls, r, Seq::empty());
            Step::Done {
                value: AnalysisResponseView { technology_stack: None, analysis_summary: s, changes: cs },
                at,
            }
        },
        other => carry(other),
    }
}

} // verus!

verus! {

/// Reads a report line by line.
pub struct Parser {
    lines: Vec<Vec<char>>,
    current: usize,
}

/// The fields as read so far, as character sequences.
pub open spec fn fields_view(file: Option<String>, reason: Option<String>, severity: Option<String>) -> Fields {
    Fields {
        file: crate::errors::opt_view(file),
        reason: crate::errors::opt_view(reason),
        severity: crate::errors::opt_view(severity),
    }
}

impl Parser {
    /// The lines of the text.
    pub closed spec fn text(&self) -> Seq<Seq<char>> {
        views(self.lines@)
    }

    /// The index of the current line.
    pub closed spec fn position(&self) -> int {
        self.current as int
    }

    /// Line numbers fit in a `usize`, and the reader is at most one line past the end.
    pub closed spec fn wf(&self) -> bool {
        &&& self.lines@.len() + 3 <= usize::MAX
        &&& self.current <= self.lines@.len() + 1
    }

    /// The reader is on a line of the text or just past its end.
    pub closed spec fn within(&self) -> bool {
        self.current <= self.lines@.len()
    }

    /// A reader at the first line of `input`.
    pub fn new(input: &str) -> (res: Self)
        requires
            input@.len() + 3 <= usize::MAX,
        ensures
            res.wf(),
            res.text() == lines_of(input@),
            res.position() == 0,
    {
        Parser { lines: lines_of_str(input), current: 0 }
    }

    /// The current line, empty past the end.
    fn current_line(&self) -> (res: Vec<char>)
        ensures
            res@ == line_at(self.text(), self.position()),
    {
        line_chars(&self.lines, self.current)
    }

    /// The line `offset` lines below the current one, empty past the end.
    fn peek_line(&self, offset: usize) -> (res: Vec<char>)
        requires
            self.current + offset <= usize::MAX,
        ensures
            res@ == line_at(self.text(), self.position() + offset),
    {
        line_chars(&self.lines, self.current + offset)
    }

    /// Moves to the next line.
    fn advance(&mut self)
        requires
            old(self).wf(),
            old(self).within(),
        ensures
            final(self).wf(),
            final(self).lines == old(self).lines,
            final(self).current == old(self).current + 1,
    {
        self.current = self.current + 1;
    }

    /// The message of a line that does not start with the marker `expected`.
    fn expect_message(&self, expected: &str) -> (res: String)
        requires
            self.wf(),
        ensures
            res@ == expect_message(self.text(), self.position(), expected@),
    {
        let mut m = owned("Expected '");
        m.append(expected);
        m.append("' at line ");
        push_decimal(&mut m, self.current + 1);
        m.append(", found '");
        let t = trimmed_line(&self.lines, self.current);
        push_chars(&mut m, t.as_slice());
        m.append("'\nContext: Previous line: '");
        if self.current > 0 {
            let prev = line_chars(&self.lines, self.current - 1);
            push_chars(&mut m, prev.as_slice());
        }
        m.append("', Next line: '");
        let next = self.peek_line(1);
        push_chars(&mut m, next.as_slice());
        m.append("'");
        proof {
            reveal_strlit("");
        }
        assert(m@ =~= expect_message(self.text(), self.position(), expected@));
        m
    }

    /// Checks that the trimmed current line starts with `expected`.
    fn expect_line(&self, expected: &str) -> (res: Result<(), String>)
        requires
            self.wf(),
        ensures
            match res {
                Ok(_) => starts_with(trim(line_at(self.text(), self.position())), expected@),
                Err(m) => !starts_with(trim(line_at(self.text(), self.position())), expected@)
                    && m@ == expect_message(self.text(), self.position(), expected@),
            },
    {
        if !trimmed_starts_with(&self.lines, self.current, expected) {
            return Err(self.expect_message(expected));
        }
        Ok(())
    }

    /// The value of the field `prefix` on the current line; moves past it.
    fn parse_field(&mut self, prefix: &str) -> (res: Result<String, String>)
        requires
            old(self).wf(),
        ensures
            final(self).wf(),
            final(self).lines == old(self).lines,
            final(self).position() >= old(self).position(),
            old(self).within() ==> final(self).within(),
            follows(res, final(self).position(), field_step(old(self).text(), old(self).position(), prefix@), |s: String| s@),
    {
        let l = self.current_line();
        let pc = to_chars(prefix);
        if self.current < self.lines.len() && starts_with_chars(l.as_slice(), pc.as_slice()) {
            let rest = copy_range(l.as_slice(), pc.len(), l.len());
            assert(rest@ =~= l@.skip(prefix@.len() as int));
            proof {
                crate::text::lemma_find_from_bounds(rest@, ' ', 0);
            }
            let value = match find_char(rest.as_slice(), ' ') {
                Some(i) => {
                    let n = rest.len();
                    assert(i < n);
                    let a = copy_range(rest.as_slice(), 0, i);
                    let b = copy_range(rest.as_slice(), i + 1, n);
                    let mut v = chars_string(&a);
                    push_chars(&mut v, b.as_slice());
                    assert(v@ =~= rest@.take(i as int) + rest@.skip(i + 1));
                    v
                },
                None => chars_string(&rest),
            };
            self.advance();
            Ok(value)
        } else {
            let mut m = owned("Expected '");
            m.append(prefix);
            m.append("' at line ");
            push_decimal(&mut m, self.current + 1);
            m.append(", found '");
            push_chars(&mut m, l.as_slice());
            m.append("'\nNext line: '");
            let next = self.peek_line(1);
            push_chars(&mut m, next.as_slice());
            m.append("'");
            assert(m@ =~= field_message(self.text(), self.position(), prefix@));
            Err(m)
        }
    }

    /// The number in the field `prefix` on the current line; moves past it.
    fn parse_number_field(&mut self, prefix: &str) -> (res: Result<usize, String>)
        requires
            old(self).wf(),
        ensures
            final(self).wf(),
            final(self).lines == old(self).lines,
            final(self).position() >= old(self).position(),
            old(self).within() ==> final(self).within(),
            follows(res, final(self).position(), number_step(old(self).text(), old(self).position(), prefix@), |n: usize| n),
    {
        let value = match self.parse_field(prefix) {
            Ok(v) => v,
            Err(e) => return Err(e),
        };
        let cs = to_chars(value.as_str());
        match parse_usize_chars(cs.as_slice()) {
            Some(n) => Ok(n),
            None => {
                let mut m = owned("Invalid number '");
                m.append(value.as_str());
                m.append("' for field ");
                m.append(prefix);
                Err(m)
            },
        }
    }

    /// The lines up to the one whose trimmed text starts with `end_marker`; moves past that line.
    fn parse_lines_until(&mut self, end_marker: &str) -> (res: Result<Vec<String>, String>)
        requires
            old(self).wf(),
        ensures
            final(self).wf(),
            final(self).lines == old(self).lines,
            final(self).position() >= old(self).position(),
            old(self).within() ==> final(self).within(),
            follows(res, final(self).position(), lines_step(old(self).text(), old(self).position(), end_marker@), |v: Vec<String>| string_views(v@)),
    {
        let start = self.current;
        let k = scan_trimmed(&self.lines, start, end_marker);
        self.current = k;
        if k >= self.lines.len() {
            return Err(self.expect_message(end_marker));
        }
        let block = copy_lines(&self.lines, start, k);
        self.advance();
        Ok(strings_of(&block))
    }

    /// The lines up to `end_marker`, joined with newlines.
    fn parse_content_until(&mut self, end_marker: &str) -> (res: Result<String, String>)
        requires
            old(self).wf(),
        ensures
            final(self).wf(),
            final(self).lines == old(self).lines,
            final(self).position() >= old(self).position(),
            old(self).within() ==> final(self).within(),
            follows(res, final(self).position(), content_step(old(self).text(), old(self).position(), end_marker@), |s: String| s@),
    {
        let lines = match self.parse_lines_until(end_marker) {
            Ok(v) => v,
            Err(e) => return Err(e),
        };
        Ok(crate::text::join_strings(&lines, "\n"))
    }

    /// A `marker` line, then the lines up to `end_marker`.
    fn parse_block(&mut self, marker: &str, end_marker: &str) -> (res: Result<Vec<String>, String>)
        requires
            old(self).wf(),
            marker@.len() > 0,
        ensures
            final(self).wf(),
            final(self).lines == old(self).lines,
            final(self).position() >= old(self).position(),
            old(self).within() ==> final(self).within(),
            follows(res, final(self).position(), block_step(old(self).text(), old(self).position(), marker@, end_marker@), |v: Vec<String>| string_views(v@)),
    {
        match self.expect_line(marker) {
            Ok(_) => {},
            Err(e) => return Err(e),
        }
        self.advance();
        self.parse_lines_until(end_marker)
    }

    /// An `ACTION:` line and the line edit it names.
    fn parse_line_action(&mut self) -> (res: Result<LineChange, String>)
        requires
            old(self).wf(),
        ensures
            final(self).wf(),
            final(self).lines == old(self).lines,
            final(self).position() >= old(self).position(),
            res is Ok ==> final(self).position() > old(self).position(),
            old(self).within() ==> final(self).within(),
            follows(res, final(self).position(), action_step(old(self).text(), old(self).position()), |c: LineChange| c@),
    {
        let action_type = match self.parse_field("ACTION:") {
            Ok(v) => v,
            Err(e) => return Err(e),
        };
        let a = action_type.as_str();
        if crate::text::str_eq(a, "replace") {
            let line_number = match self.parse_number_field("LINE:") {
                Ok(n) => n,
                Err(e) => return Err(e),
            };
            let old_content = match self.parse_field("OLD:") {
                Ok(v) => v,
                Err(e) => return Err(e),
            };
            let new_content = match self.parse_field("NEW:") {
                Ok(v) => v,
                Err(e) => return Err(e),
            };
            Ok(LineChange::Replace { line_number, old_content, new_content })
        } else if crate::text::str_eq(a, "insert_after") {
            let line_number = match self.parse_number_field("LINE:") {
                Ok(n) => n,
                Err(e) => return Err(e),
            };
            let new_content = match self.parse_field("NEW:") {
                Ok(v) => v,
                Err(e) => return Err(e),
            };
            Ok(LineChange::InsertAfter { line_number, new_content })
        } else if crate::text::str_eq(a, "insert_before") {
            let line_number = match self.parse_number_field("LINE:") {
                Ok(n) => n,
                Err(e) => return Err(e),
            };
            let new_content = match self.parse_field("NEW:") {
                Ok(v) => v,
                Err(e) => return Err(e),
            };
            Ok(LineChange::InsertBefore { line_number, new_content })
        } else if crate::text::str_eq(a, "delete") {
            let line_number = match self.parse_number_field("LINE:") {
                Ok(n) => n,
                Err(e) => return Err(e),
            };
            Ok(LineChange::Delete { line_number })
        } else if crate::text::str_eq(a, "replace_range") {
            let start_line = match self.parse_number_field("START_LINE:") {
                Ok(n) => n,
                Err(e) => return Err(e),
            };
            let end_line = match self.parse_number_field("END_LINE:") {
                Ok(n) => n,
                Err(e) => return Err(e),
            };
            proof {
                reveal_strlit("OLD_LINES:");
                reveal_strlit("NEW_LINES:");
            }
            let old_content = match self.parse_block("OLD_LINES:", "END_OLD_LINES") {
                Ok(v) => v,
                Err(e) => return Err(e),
            };
            let new_content = match self.parse_block("NEW_LINES:", "END_NEW_LINES") {
                Ok(v) => v,
                Err(e) => return Err(e),
            };
            Ok(LineChange::ReplaceRange { start_line, end_line, old_content, new_content })
        } else {
            let mut m = owned("Unknown action type: ");
            m.append(a);
            Err(m)
        }
    }

    /// After an edit that did not parse: moves to the next `ACTION:` or `END_CHANGE` line.
    fn skip_to_next_action(&mut self)
        requires
            old(self).wf(),
            old(self).within(),
        ensures
            final(self).wf(),
            final(self).lines == old(self).lines,
            final(self).position() == skip_action(old(self).text(), old(self).position()),
            final(self).position() > old(self).position(),
    {
        self.advance();
        self.current = scan_trimmed_either(&self.lines, self.current, "ACTION:", "END_CHANGE");
    }

    /// Reads one field line of a change into `slot`.
    fn read_field(&mut self, prefix: &str, slot: &mut Option<String>) -> (res: Result<(), String>)
        requires
            old(self).wf(),
        ensures
            final(self).wf(),
            final(self).lines == old(self).lines,
            final(self).position() >= old(self).position(),
            old(self).within() ==> final(self).within(),
            match field_step(old(self).text(), old(self).position(), prefix@) {
                Step::Done { value, at } => res is Ok && final(self).position() == at
                    && crate::errors::opt_view(*final(slot)) == Some(value),
                Step::Failed { message, at } => res matches Err(m) && m@ == message
                    && final(self).position() == at,
            },
    {
        match self.parse_field(prefix) {
            Ok(v) => {
                *slot = Some(v);
                Ok(())
            },
            Err(e) => Err(e),
        }
    }

    /// The error of the first missing field, if any.
    fn missing_field(file: &Option<String>, reason: &Option<String>, severity: &Option<String>) -> (res: Option<String>)
        ensures
            match missing(fields_view(*file, *reason, *severity)) {
                Some(m) => res matches Some(s) && s@ == m,
                None => res is None,
            },
    {
        if file.is_none() {
            Some(owned("Missing FILE field"))
        } else if reason.is_none() {
            Some(owned("Missing REASON field"))
        } else if severity.is_none() {
            Some(owned("Missing SEVERITY field"))
        } else {
            None
        }
    }

    /// A modification: its fields and line edits up to `END_CHANGE`, and that line.
    fn parse_modify_file(&mut self) -> (res: Result<FileChange, String>)
        requires
            old(self).wf(),
        ensures
            final(self).wf(),
            final(self).lines == old(self).lines,
            final(self).position() >= old(self).position(),
            follows(res, final(self).position(), modify_step(old(self).text(), old(self).position()), |c: FileChange| c@),
    {
        let mut file: Option<String> = None;
        let mut reason: Option<String> = None;
        let mut severity: Option<String> = None;
        let mut line_changes: Vec<LineChange> = Vec::new();
        let ghost p0 = self.position();
        assert(change_views(line_changes@) =~= Seq::<LineChangeView>::empty());
        loop
            invariant
                self.wf(),
                self.lines == old(self).lines,
                self.position() >= p0 == old(self).position(),
                modify_body(self.text(), p0, no_fields(), Seq::empty()) == modify_body(
                    self.text(),
                    self.position(),
                    fields_view(file, reason, severity),
                    change_views(line_changes@),
                ),
            ensures
                self.wf(),
                self.lines == old(self).lines,
                self.position() >= p0,
                modify_body(self.text(), p0, no_fields(), Seq::empty()) == (Step::Done {
                    value: (fields_view(file, reason, severity), change_views(line_changes@)),
                    at: self.position(),
                }),
            decreases self.lines@.len() + 2 - self.current,
        {
            if self.current >= self.lines.len() || raw_starts_with(&self.lines, self.current, "END_CHANGE") {
                break;
            }
            assert(line_at(self.text(), self.position()) == self.text()[self.position()]);
            let ghost q = self.position();
            let ghost f0 = fields_view(file, reason, severity);
            let ghost a0 = change_views(line_changes@);
            if trimmed_starts_with(&self.lines, self.current, "FILE:") {
                match self.read_field("FILE:", &mut file) {
                    Ok(_) => {},
                    Err(e) => {
                        assert(modify_body(self.text(), q, f0, a0) == (Step::<(Fields, Seq<LineChangeView>)>::Failed { message: e@, at: self.position() }));
                        return Err(e);
                    },
                }
            } else if trimmed_starts_with(&self.lines, self.current, "REASON:") {
                match self.read_field("REASON:", &mut reason) {
                    Ok(_) => {},
                    Err(e) => {
                        assert(modify_body(self.text(), q, f0, a0) == (Step::<(Fields, Seq<LineChangeView>)>::Failed { message: e@, at: self.position() }));
                        return Err(e);
                    },
                }
            } else if trimmed_starts_with(&self.lines, self.current, "SEVERITY:") {
                match self.read_field("SEVERITY:", &mut severity) {
                    Ok(_) => {},
                    Err(e) => {
                        assert(modify_body(self.text(), q, f0, a0) == (Step::<(Fields, Seq<LineChangeView>)>::Failed { message: e@, at: self.position() }));
                        return Err(e);
                    },
                }
            } else if trimmed_starts_with(&self.lines, self.current, "ACTION:") {
                match self.parse_line_action() {
                    Ok(action) => {
                        let ghost before = change_views(line_changes@);
                        let ghost av = action@;
                        line_changes.push(action);
                        assert(change_views(line_changes@) =~= before.push(av));
                    },
                    Err(_) => {
                        self.skip_to_next_action();
                    },
                }
            } else {
                self.advance();
            }
        }
        match self.expect_line("END_CHANGE") {
            Ok(_) => {},
            Err(e) => return Err(e),
        }
        proof {
            reveal_strlit("END_CHANGE");
        }
        self.advance();
        match Self::missing_field(&file, &reason, &severity) {
            Some(m) => return Err(m),
            None => {},
        }
        let file_path = match file {
            Some(v) => v,
            None => return Err(owned("Missing FILE field")),
        };
        let reason = match reason {
            Some(v) => v,
            None => return Err(owned("Missing REASON field")),
        };
        let severity = match severity {
            Some(v) => v,
            None => return Err(owned("Missing SEVERITY field")),
        };
        proof {
            reveal_strlit("");
        }
        Ok(FileChange::ModifyFile { file_path, reason, severity, category: String::new(), line_changes })
    }

    /// A creation: its fields and content up to `END_CHANGE`, and that line.
    fn parse_create_file(&mut self) -> (res: Result<FileChange, String>)
        requires
            old(self).wf(),
        ensures
            final(self).wf(),
            final(self).lines == old(self).lines,
            final(self).position() >= old(self).position(),
            follows(res, final(self).position(), create_step(old(self).text(), old(self).position()), |c: FileChange| c@),
    {
        let mut file: Option<String> = None;
        let mut reason: Option<String> = None;
        let mut severity: Option<String> = None;
        let mut content = String::new();
        let ghost p0 = self.position();
        proof {
            reveal_strlit("");
        }
        loop
            invariant
                self.wf(),
                self.lines == old(self).lines,
                self.position() >= p0 == old(self).position(),
                create_body(self.text(), p0, no_fields(), Seq::empty()) == create_body(
                    self.text(),
                    self.position(),
                    fields_view(file, reason, severity),
                    content@,
                ),
            ensures
                self.wf(),
                self.lines == old(self).lines,
                self.position() >= p0,
                create_body(self.text(), p0, no_fields(), Seq::empty()) == (Step::Done {
                    value: (fields_view(file, reason, severity), content@),
                    at: self.position(),
                }),
            decreases self.lines@.len() + 2 - self.current,
        {
            if self.current >= self.lines.len() || raw_starts_with(&self.lines, self.current, "END_CHANGE") {
                break;
            }
            assert(line_at(self.text(), self.position()) == self.text()[self.position()]);
            let ghost q = self.position();
            let ghost f0 = fields_view(file, reason, severity);
            let ghost c0 = content@;
            if trimmed_starts_with(&self.lines, self.current, "FILE:") {
                match self.read_field("FILE:", &mut file) {
                    Ok(_) => {},
                    Err(e) => {
                        assert(create_body(self.text(), q, f0, c0) == (Step::<(Fields, Seq<char>)>::Failed { message: e@, at: self.position() }));
                        return Err(e);
                    },
                }
            } else if trimmed_starts_with(&self.lines, self.current, "REASON:") {
                match self.read_field("REASON:", &mut reason) {
                    Ok(_) => {},
                    Err(e) => {
                        assert(create_body(self.text(), q, f0, c0) == (Step::<(Fields, Seq<char>)>::Failed { message: e@, at: self.position() }));
                        return Err(e);
                    },
                }
            } else if trimmed_starts_with(&self.lines, self.current, "SEVERITY:") {
                match self.read_field("SEVERITY:", &mut severity) {
                    Ok(_) => {},
                    Err(e) => {
                        assert(create_body(self.text(), q, f0, c0) == (Step::<(Fields, Seq<char>)>::Failed { message: e@, at: self.position() }));
                        return Err(e);
                    },
                }
            } else if trimmed_starts_with(&self.lines, self.current, "CONTENT:") {
                self.advance();
                match self.parse_content_until("END_CONTENT") {
                    Ok(c) => content = c,
                    Err(e) => {
                        assert(create_body(self.text(), q, f0, c0) == (Step::<(Fields, Seq<char>)>::Failed { message: e@, at: self.position() }));
                        return Err(e);
                    },
                }
            } else {
                self.advance();
            }
        }
        match self.expect_line("END_CHANGE") {
            Ok(_) => {},
            Err(e) => return Err(e),
        }
        proof {
            reveal_strlit("END_CHANGE");
        }
        self.advance();
        match Self::missing_field(&file, &reason, &severity) {
            Some(m) => return Err(m),
            None => {},
        }
        let file_path = match file {
            Some(v) => v,
            None => return Err(owned("Missing FILE field")),
        };
        let reason = match reason {
            Some(v) => v,
            None => return Err(owned("Missing REASON field")),
        };
        let severity = match severity {
            Some(v) => v,
            None => return Err(owned("Missing SEVERITY field")),
        };
        Ok(FileChange::CreateFile { file_path, reason, severity, category: String::new(), content })
    }

    /// A deletion: its fields up to `END_CHANGE`, and that line.
    fn parse_delete_file(&mut self) -> (res: Result<FileChange, String>)
        requires
            old(self).wf(),
        ensures
            final(self).wf(),
            final(self).lines == old(self).lines,
            final(self).position() >= old(self).position(),
            follows(res, final(self).position(), delete_step(old(self).text(), old(self).position()), |c: FileChange| c@),
    {
        let mut file: Option<String> = None;
        let mut reason: Option<String> = None;
        let mut severity: Option<String> = None;
        let ghost p0 = self.position();
        loop
            invariant
                self.wf(),
                self.lines == old(self).lines,
                self.position() >= p0 == old(self).position(),
                delete_body(self.text(), p0, no_fields()) == delete_body(
                    self.text(),
                    self.position(),
                    fields_view(file, reason, severity),
                ),
            ensures
                self.wf(),
                self.lines == old(self).lines,
                self.position() >= p0,
                delete_body(self.text(), p0, no_fields()) == (Step::Done {
                    value: fields_view(file, reason, severity),
                    at: self.position(),
                }),
            decreases self.lines@.len() + 2 - self.current,
        {
            if self.current >= self.lines.len() || raw_starts_with(&self.lines, self.current, "END_CHANGE") {
                break;
            }
            assert(line_at(self.text(), self.position()) == self.text()[self.position()]);
            let ghost q = self.position();
            let ghost f0 = fields_view(file, reason, severity);
            if trimmed_starts_with(&self.lines, self.current, "FILE:") {
                match self.read_field("FILE:", &mut file) {
                    Ok(_) => {},
                    Err(e) => {
                        assert(delete_body(self.text(), q, f0) == (Step::<Fields>::Failed { message: e@, at: self.position() }));
                        return Err(e);
                    },
                }
            } else if trimmed_starts_with(&self.lines, self.current, "REASON:") {
                match self.read_field("REASON:", &mut reason) {
                    Ok(_) => {},
                    Err(e) => {
                        assert(delete_body(self.text(), q, f0) == (Step::<Fields>::Failed { message: e@, at: self.position() }));
                        return Err(e);
                    },
                }
            } else if trimmed_starts_with(&self.lines, self.current, "SEVERITY:") {
                match self.read_field("SEVERITY:", &mut severity) {
                    Ok(_) => {},
                    Err(e) => {
                        assert(delete_body(self.text(), q, f0) == (Step::<Fields>::Failed { message: e@, at: self.position() }));
                        return Err(e);
                    },
                }
            } else {
                self.advance();
            }
        }
        match self.expect_line("END_CHANGE") {
            Ok(_) => {},
            Err(e) => return Err(e),
        }
        proof {
            reveal_strlit("END_CHANGE");
        }
        self.advance();
        match Self::missing_field(&file, &reason, &severity) {
            Some(m) => return Err(m),
            None => {},
        }
        let file_path = match file {
            Some(v) => v,
            None => return Err(owned("Missing FILE field")),
        };
        let reason = match reason {
            Some(v) => v,
            None => return Err(owned("Missing REASON field")),
        };
        let severity = match severity {
            Some(v) => v,
            None => return Err(owned("Missing SEVERITY field")),
        };
        proof {
            reveal_strlit("");
        }
        Ok(FileChange::DeleteFile { file_path, reason, severity, category: String::new() })
    }

    /// A `CHANGE: kind` line and the change of that kind.
    fn parse_change(&mut self) -> (res: Result<FileChange, String>)
        requires
            old(self).wf(),
            old(self).within(),
        ensures
            final(self).wf(),
            final(self).lines == old(self).lines,
            final(self).position() >= old(self).position(),
            starts_with(line_at(old(self).text(), old(self).position()), "CHANGE:"@)
                ==> final(self).position() > old(self).position(),
            follows(res, final(self).position(), change_step(old(self).text(), old(self).position()), |c: FileChange| c@),
    {
        let line = self.current_line();
        let marker = to_chars("CHANGE:");
        if !starts_with_chars(line.as_slice(), marker.as_slice()) {
            let mut m = owned("Expected 'CHANGE:' at line ");
            push_decimal(&mut m, self.current + 1);
            return Err(m);
        }
        let rest = copy_range(line.as_slice(), marker.len(), line.len());
        assert(rest@ =~= line@.skip("CHANGE:"@.len() as int));
        let kind = trim_chars(rest.as_slice());
        self.advance();
        if chars_are(kind.as_slice(), "modify_file") {
            self.parse_modify_file()
        } else if chars_are(kind.as_slice(), "create_file") {
            self.parse_create_file()
        } else if chars_are(kind.as_slice(), "delete_file") {
            self.parse_delete_file()
        } else {
            let mut m = owned("Unknown change type: ");
            push_chars(&mut m, kind.as_slice());
            Err(m)
        }
    }

    /// After a change that did not parse: moves to the next line that starts
    /// with `CHANGE:`, or past the next that starts with `END_CHANGE`.
    fn skip_to_next_change(&mut self)
        requires
            old(self).wf(),
        ensures
            final(self).wf(),
            final(self).lines == old(self).lines,
            final(self).position() == skip_change(old(self).text(), old(self).position()),
            final(self).position() >= old(self).position(),
    {
        self.current = scan_raw_either(&self.lines, self.current, "CHANGE:", "END_CHANGE");
        if raw_starts_with(&self.lines, self.current, "END_CHANGE") {
            proof {
                reveal_strlit("END_CHANGE");
            }
            self.advance();
        }
    }

    /// The `ANALYSIS_SUMMARY:` line and the non-blank lines after it, up to the first `CHANGE:` line.
    fn parse_summary(&mut self) -> (res: Result<String, String>)
        requires
            old(self).wf(),
        ensures
            final(self).wf(),
            final(self).lines == old(self).lines,
            final(self).position() >= old(self).position(),
            follows(res, final(self).position(), summary_step(old(self).text(), old(self).position()), |s: String| s@),
    {
        match self.expect_line("ANALYSIS_SUMMARY:") {
            Ok(_) => {},
            Err(e) => return Err(e),
        }
        proof {
            reveal_strlit("ANALYSIS_SUMMARY:");
        }
        self.advance();
        let start = self.current;
        let j = scan_raw(&self.lines, start, "CHANGE:");
        let mut summary: Vec<Vec<char>> = Vec::new();
        assert(self.text().subrange(start as int, start as int) =~= Seq::<Seq<char>>::empty());
        while self.current < j
            invariant
                self.wf(),
                self.lines == old(self).lines,
                start <= self.current <= j <= self.lines@.len(),
                views(summary@) == nonblank_raw(self.text().subrange(start as int, self.position())),
            decreases j - self.current,
        {
            let ghost prev = self.text().subrange(start as int, self.position());
            let ghost next = self.text().subrange(start as int, self.position() + 1);
            assert(next.drop_last() =~= prev);
            assert(next.last() == line_at(self.text(), self.position()));
            if !blank_line(&self.lines, self.current) {
                let l = self.current_line();
                let ghost before = views(summary@);
                summary.push(l);
                assert(views(summary@) =~= before.push(next.last()));
            }
            self.advance();
        }
        Ok(join_chars(&summary, "\n"))
    }

    /// Reads the report from the current line: the summary, then every change
    /// that parses.
    pub fn parse(&mut self) -> (res: Result<AnalysisResponse, String>)
        requires
            old(self).wf(),
        ensures
            final(self).wf(),
            final(self).text() == old(self).text(),
            follows(res, final(self).position(), report_step(old(self).text(), old(self).position()), |r: AnalysisResponse| r@),
    {
        let analysis_summary = match self.parse_summary() {
            Ok(s) => s,
            Err(e) => return Err(e),
        };
        let ghost r0 = self.position();
        let mut changes: Vec<FileChange> = Vec::new();
        assert(file_change_views(changes@) =~= Seq::<FileChangeView>::empty());
        loop
            invariant
                self.wf(),
                self.lines == old(self).lines,
                self.position() >= r0,
                changes_from(self.text(), r0, Seq::empty()) == changes_from(
                    self.text(),
                    self.position(),
                    file_change_views(changes@),
                ),
            ensures
                self.wf(),
                self.lines == old(self).lines,
                changes_from(self.text(), r0, Seq::empty()) == (
                    file_change_views(changes@),
                    self.position(),
                ),
            decreases self.lines@.len() + 2 - self.current,
        {
            if self.current >= self.lines.len() {
                break;
            }
            assert(line_at(self.text(), self.position()) == self.text()[self.position()]);
            if blank_line(&self.lines, self.current) {
                self.current = self.current + 1;
            } else if raw_starts_with(&self.lines, self.current, "CHANGE:") {
                match self.parse_change() {
                    Ok(change) => {
                        let ghost before = file_change_views(changes@);
                        let ghost c = change@;
                        changes.push(change);
                        assert(file_change_views(changes@) =~= before.push(c));
                    },
                    Err(_) => {
                        self.skip_to_next_change();
                    },
                }
            } else {
                self.current = self.current + 1;
            }
        }
        Ok(AnalysisResponse { technology_stack: None, analysis_summary, changes })
    }
}

} // verus!
