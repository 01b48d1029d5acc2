//! Parser of the analysis report that the language model writes.
//!
//! The report is line oriented: an optional `TECHNOLOGY_STACK:` block, an
//! `ANALYSIS_SUMMARY:` section, then any number of `CHANGE:` blocks, each
//! closed by `END_CHANGE`. A change that does not parse is skipped; a line
//! edit inside a change that does not parse is skipped as well.

use vstd::prelude::*;
use crate::errors::{AicedError, AicedResult, owned, opt_view};
use crate::text::{
    views, trim, starts_with, parse_usize, decimal, join, find_from, to_chars, from_chars,
    trim_chars, starts_with_chars, chars_eq, parse_usize_chars, push_decimal, lines_of,
    lines_of_str, copy_range, find_char, join_chars, string_views, str_eq, lemma_trim_keeps_prefix,
};
use crate::cursor::{
    ParseFailure, Parsed, failure, reports, line_at, trimmed_starts, raw_starts,
    trimmed_starts_either, trimmed_equals, scan, lemma_scan, expect_failure, field_value, agrees,
    lift, line_chars, trimmed_line, trimmed_starts_with, raw_starts_with, blank_line, trimmed_is,
    field_at, scan_trimmed, scan_raw, scan_trimmed_either, copy_lines, chars_string, strings_of,
    chars_start_with, chars_are, scan_trimmed_equals,
};
use crate::line_change::{LineChange, LineChangeView, change_views};
use crate::file_change::{FileChange, FileChangeView, file_change_views};
use crate::report::{
    TechnologyStack, TechnologyStackView, AnalysisResponse, AnalysisResponseView, empty_stack,
    stack_field_count, insert_entry, insert_pair, pair_views, stack_view_opt,
};

verus! {

// ---------------------------------------------------------------------------
// The grammar, one spec function per parsing step.
// ---------------------------------------------------------------------------

/// The failure of a field that is not on its line.
pub open spec fn missing_prefix(p: int, prefix: Seq<char>) -> ParseFailure {
    failure("InvalidFormat"@, p + 1, "InvalidFormat"@, prefix)
}

/// A `PREFIX: value` line: the trimmed value, and the next line.
pub open spec fn field_step(ls: Seq<Seq<char>>, p: int, prefix: Seq<char>) -> Parsed<Seq<char>> {
    match field_value(ls, p, prefix) {
        Some(v) => Parsed::Done { value: v, at: p + 1 },
        None => Parsed::Failed { failure: missing_prefix(p, prefix), at: p },
    }
}

/// A `PREFIX: number` line.
pub open spec fn number_step(ls: Seq<Seq<char>>, p: int, prefix: Seq<char>) -> Parsed<usize> {
    match field_step(ls, p, prefix) {
        Parsed::Done { value, at } => match parse_usize(value) {
            Some(n) => Parsed::Done { value: n, at },
            None => Parsed::Failed {
                failure: failure("InvalidNumber"@, at + 1, "InvalidNumber"@, value),
                at,
            },
        },
        other => lift(other),
    }
}

/// The lines up to the first whose trimmed text starts with `end`, and the line after it.
pub open spec fn lines_step(ls: Seq<Seq<char>>, p: int, end: Seq<char>) -> Parsed<Seq<Seq<char>>> {
    let k = scan(ls, p, trimmed_starts(end));
    if k >= ls.len() {
        Parsed::Failed {
            failure: failure("UnexpectedEof"@, k + 1, "UnexpectedEof"@, "looking for "@ + end),
            at: k,
        }
    } else {
        Parsed::Done { value: ls.subrange(p, k), at: k + 1 }
    }
}

/// A `marker` line, then the lines up to `end`.
pub open spec fn block_step(ls: Seq<Seq<char>>, p: int, marker: Seq<char>, end: Seq<char>) -> Parsed<
    Seq<Seq<char>>,
> {
    if !starts_with(trim(line_at(ls, p)), marker) {
        Parsed::Failed { failure: expect_failure(ls, p, marker), at: p }
    } else {
        lines_step(ls, p + 1, end)
    }
}

/// The failure of a range whose start is after its end.
pub open spec fn range_failure(at: int, s: usize, e: usize) -> ParseFailure {
    failure(
        "ParseError"@,
        at,
        "InvalidFormat"@,
        "Invalid line range: start_line ("@ + decimal(s as nat) + ") > end_line ("@ + decimal(
            e as nat,
        ) + ")"@,
    )
}

/// `LINE:`, `OLD:`, `NEW:` of a replacement.
pub open spec fn replace_step(ls: Seq<Seq<char>>, p: int) -> Parsed<LineChangeView> {
    match number_step(ls, p, "LINE:"@) {
        Parsed::Done { value: n, at: q } => match field_step(ls, q, "OLD:"@) {
            Parsed::Done { value: o, at: r } => match field_step(ls, r, "NEW:"@) {
                Parsed::Done { value: w, at } => Parsed::Done {
                    value: LineChangeView::Replace { line_number: n, old_content: o, new_content: w },
                    at,
                },
                other => lift(other),
            },
            other => lift(other),
        },
        other => lift(other),
    }
}

/// `LINE:`, `NEW:` of an insertion after a line.
pub open spec fn insert_after_step(ls: Seq<Seq<char>>, p: int) -> Parsed<LineChangeView> {
    match number_step(ls, p, "LINE:"@) {
        Parsed::Done { value: n, at: q } => match field_step(ls, q, "NEW:"@) {
            Parsed::Done { value: w, at } => Parsed::Done {
                value: LineChangeView::InsertAfter { line_number: n, new_content: w },
                at,
            },
            other => lift(other),
        },
        other => lift(other),
    }
}

/// `LINE:`, `NEW:` of an insertion before a line.
pub open spec fn insert_before_step(ls: Seq<Seq<char>>, p: int) -> Parsed<LineChangeView> {
    match number_step(ls, p, "LINE:"@) {
        Parsed::Done { value: n, at: q } => match field_step(ls, q, "NEW:"@) {
            Parsed::Done { value: w, at } => Parsed::Done {
                value: LineChangeView::InsertBefore { line_number: n, new_content: w },
                at,
            },
            other => lift(other),
        },
        other => lift(other),
    }
}

/// `LINE:` and a `NEW_LINES:` block of an insertion of several lines after a line.
pub open spec fn insert_many_after_step(ls: Seq<Seq<char>>, p: int) -> Parsed<LineChangeView> {
    match number_step(ls, p, "LINE:"@) {
        Parsed::Done { value: n, at: q } => match block_step(ls, q, "NEW_LINES:"@, "END_NEW_LINES"@) {
            Parsed::Done { value: b, at } => Parsed::Done {
                value: LineChangeView::InsertManyAfter { line_number: n, new_lines: b },
                at,
            },
            other => lift(other),
        },
        other => lift(other),
    }
}

/// `LINE:` and a `NEW_LINES:` block of an insertion of several lines before a line.
pub open spec fn insert_many_before_step(ls: Seq<Seq<char>>, p: int) -> Parsed<LineChangeView> {
    match number_step(ls, p, "LINE:"@) {
        Parsed::Done { value: n, at: q } => match block_step(ls, q, "NEW_LINES:"@, "END_NEW_LINES"@) {
            Parsed::Done { value: b, at } => Parsed::Done {
                value: LineChangeView::InsertManyBefore { line_number: n, new_lines: b },
                at,
            },
            other => lift(other),
        },
        other => lift(other),
    }
}

/// `LINE:` of a deletion.
pub open spec fn delete_step(ls: Seq<Seq<char>>, p: int) -> Parsed<LineChangeView> {
    match number_step(ls, p, "LINE:"@) {
        Parsed::Done { value: n, at } => Parsed::Done {
            value: LineChangeView::Delete { line_number: n },
            at,
        },
        other => lift(other),
    }
}

/// `START_LINE:`, `END_LINE:` of a deletion of several lines; the start may not follow the end.
pub open spec fn delete_many_step(ls: Seq<Seq<char>>, p: int) -> Parsed<LineChangeView> {
    match number_step(ls, p, "START_LINE:"@) {
        Parsed::Done { value: s, at: q } => match number_step(ls, q, "END_LINE:"@) {
            Parsed::Done { value: e, at } => if s > e {
                Parsed::Failed { failure: range_failure(at, s, e), at }
            } else {
                Parsed::Done { value: LineChangeView::DeleteMany { start_line: s, end_line: e }, at }
            },
            other => lift(other),
        },
        other => lift(other),
    }
}

/// `START_LINE:`, `END_LINE:`, an `OLD_LINES:` block and a `NEW_LINES:` block of a range replacement.
pub open spec fn replace_range_step(ls: Seq<Seq<char>>, p: int) -> Parsed<LineChangeView> {
    match number_step(ls, p, "START_LINE:"@) {
        Parsed::Done { value: s, at: q } => match number_step(ls, q, "END_LINE:"@) {
            Parsed::Done { value: e, at: r } => if s > e {
                Parsed::Failed { failure: range_failure(r, s, e), at: r }
            } else {
                match block_step(ls, r, "OLD_LINES:"@, "END_OLD_LINES"@) {
                    Parsed::Done { value: o, at: t } => match block_step(
                        ls,
                        t,
                        "NEW_LINES:"@,
                        "END_NEW_LINES"@,
                    ) {
                        Parsed::Done { value: w, at } => Parsed::Done {
                            value: LineChangeView::ReplaceRange {
                                start_line: s,
                                end_line: e,
                                old_content: o,
                                new_content: w,
                            },
                            at,
                        },
                        other => lift(other),
                    },
                    other => lift(other),
                }
            },
            other => lift(other),
        },
        other => lift(other),
    }
}

/// An `ACTION:` line and the fields of its kind of edit.
pub open spec fn action_step(ls: Seq<Seq<char>>, p: int) -> Parsed<LineChangeView> {
    match field_step(ls, p, "ACTION:"@) {
        Parsed::Done { value: a, at: q } => if a == "replace"@ {
            replace_step(ls, q)
        } else if a == "insert_after"@ {
            insert_after_step(ls, q)
        } else if a == "insert_before"@ {
            insert_before_step(ls, q)
        } else if a == "insert_many_after"@ {
            insert_many_after_step(ls, q)
        } else if a == "insert_many_before"@ {
            insert_many_before_step(ls, q)
        } else if a == "delete"@ {
            delete_step(ls, q)
        } else if a == "delete_many"@ {
            delete_many_step(ls, q)
        } else if a == "replace_range"@ {
            replace_range_step(ls, q)
        } else {
            Parsed::Failed {
                failure: failure("UnknownActionType"@, q, "UnknownActionType"@, a),
                at: q,
            }
        },
        other => lift(other),
    }
}

/// After an edit that did not parse at line `p`: the next `ACTION:` or `END_CHANGE` line after it.
pub open spec fn skip_action(ls: Seq<Seq<char>>, p: int) -> int {
    scan(ls, p + 1, trimmed_starts_either("ACTION:"@, "END_CHANGE"@))
}

/// The line edits of a modification from line `q` up to the line that starts
/// with `END_CHANGE`, and that line. A step always moves past the line it
/// starts on; the bounds on the next line only make termination evident.
pub open spec fn actions_from(ls: Seq<Seq<char>>, q: int, acc: Seq<LineChangeView>) -> (
    Seq<LineChangeView>,
    int,
)
    decreases ls.len() + 2 - q,
{
    if q < 0 || q >= ls.len() || starts_with(ls[q], "END_CHANGE"@) {
        (acc, q)
    } else if starts_with(trim(ls[q]), "ACTION:"@) {
        match action_step(ls, q) {
            Parsed::Done { value, at } => if q < at <= ls.len() + 1 {
                actions_from(ls, at, acc.push(value))
            } else {
                (acc, q)
            },
            Parsed::Failed { at, .. } => {
                let s = skip_action(ls, at);
                if q < s <= ls.len() + 1 {
                    actions_from(ls, s, acc)
                } else {
                    (acc, q)
                }
            },
            Parsed::Stalls => (acc, q),
        }
    } else {
        actions_from(ls, q + 1, acc)
    }
}

/// The fields that every change carries.
pub struct Header {
    pub file: Option<Seq<char>>,
    pub reason: Option<Seq<char>>,
    pub severity: Option<Seq<char>>,
    pub category: Option<Seq<char>>,
}

/// A header with no field yet.
pub open spec fn no_header() -> Header {
    Header { file: None, reason: None, severity: None, category: None }
}

/// A line that ends the header of a change.
pub open spec fn is_terminator(l: Seq<char>) -> bool {
    let t = trim(l);
    starts_with(t, "END_CHANGE"@) || starts_with(t, "ACTION:"@) || starts_with(t, "CONTENT:"@)
}

/// A trimmed line that starts with one of the field names of the format.
pub open spec fn recognized_field(t: Seq<char>) -> bool {
    ||| starts_with(t, "FILE:"@)
    ||| starts_with(t, "REASON:"@)
    ||| starts_with(t, "SEVERITY:"@)
    ||| starts_with(t, "CATEGORY:"@)
    ||| starts_with(t, "ACTION:"@)
    ||| starts_with(t, "LINE:"@)
    ||| starts_with(t, "START_LINE:"@)
    ||| starts_with(t, "END_LINE:"@)
    ||| starts_with(t, "OLD:"@)
    ||| starts_with(t, "NEW:"@)
    ||| starts_with(t, "CONTENT:"@)
    ||| starts_with(t, "NEW_LINES:"@)
}

/// The header fields from line `p` up to the end of the header. A line that
/// names a field of another part of the format, before the header ends, is
/// never passed: the reader stalls there.
pub open spec fn header_from(ls: Seq<Seq<char>>, p: int, h: Header) -> Parsed<Header>
    decreases ls.len() - p,
{
    if p < 0 || p >= ls.len() || is_terminator(ls[p]) {
        Parsed::Done { value: h, at: p }
    } else {
        let t = trim(ls[p]);
        if starts_with(t, "FILE:"@) {
            match field_value(ls, p, "FILE:"@) {
                Some(v) => header_from(ls, p + 1, Header { file: Some(v), ..h }),
                None => Parsed::Failed { failure: missing_prefix(p, "FILE:"@), at: p },
            }
        } else if starts_with(t, "REASON:"@) {
            match field_value(ls, p, "REASON:"@) {
                Some(v) => header_from(ls, p + 1, Header { reason: Some(v), ..h }),
                None => Parsed::Failed { failure: missing_prefix(p, "REASON:"@), at: p },
            }
        } else if starts_with(t, "SEVERITY:"@) {
            match field_value(ls, p, "SEVERITY:"@) {
                Some(v) => header_from(ls, p + 1, Header { severity: Some(v), ..h }),
                None => Parsed::Failed { failure: missing_prefix(p, "SEVERITY:"@), at: p },
            }
        } else if starts_with(t, "CATEGORY:"@) {
            match field_value(ls, p, "CATEGORY:"@) {
                Some(v) => header_from(ls, p + 1, Header { category: Some(v), ..h }),
                None => Parsed::Failed { failure: missing_prefix(p, "CATEGORY:"@), at: p },
            }
        } else if recognized_field(t) {
            Parsed::Stalls
        } else {
            header_from(ls, p + 1, h)
        }
    }
}

/// The failure of a header without the field `name`.
pub open spec fn missing_field(at: int, name: Seq<char>) -> ParseFailure {
    failure("MissingField"@, at, "MissingField"@, name)
}

/// The header of a change, which must name the file, the reason, the severity and the category.
pub open spec fn required_step(ls: Seq<Seq<char>>, p: int) -> Parsed<Header> {
    match header_from(ls, p, no_header()) {
        Parsed::Done { value: h, at } => if h.file is None {
            Parsed::Failed { failure: missing_field(at, "FILE:"@), at }
        } else if h.reason is None {
            Parsed::Failed { failure: missing_field(at, "REASON:"@), at }
        } else if h.severity is None {
            Parsed::Failed { failure: missing_field(at, "SEVERITY:"@), at }
        } else if h.category is None {
            Parsed::Failed { failure: missing_field(at, "CATEGORY:"@), at }
        } else {
            Parsed::Done { value: h, at }
        },
        other => other,
    }
}

/// A modification: its header, its line edits, and the `END_CHANGE` line.
pub open spec fn modify_step(ls: Seq<Seq<char>>, p: int) -> Parsed<FileChangeView> {
    match required_step(ls, p) {
        Parsed::Done { value: h, at: q } => {
            let (acts, r) = actions_from(ls, q, Seq::empty());
            if !starts_with(trim(line_at(ls, r)), "END_CHANGE"@) {
                Parsed::Failed { failure: expect_failure(ls, r, "END_CHANGE"@), at: r }
            } else {
                Parsed::Done {
                    value: FileChangeView::ModifyFile {
                        file_path: h.file->0,
                        reason: h.reason->0,
                        severity: h.severity->0,
                        category: h.category->0,
                        line_changes: acts,
                    },
                    at: r + 1,
                }
            }
        },
        other => lift(other),
    }
}

/// The text of a content block: the lines up to one whose trimmed text is
/// `end`, joined with newlines. More than ten thousand lines is an error, and
/// so is a block that is not followed by another line.
pub open spec fn content_step(ls: Seq<Seq<char>>, p: int, end: Seq<char>) -> Parsed<Seq<char>> {
    let k = scan(ls, p, trimmed_equals(end));
    if k - p > 10000 {
        Parsed::Failed {
            failure: failure(
                "ContentTooLarge"@,
                p + 10001,
                "ContentTooLarge"@,
                "Content block too large (>10000 lines), possible missing "@ + end,
            ),
            at: p + 10001,
        }
    } else {
        let c = if k < ls.len() {
            k + 1
        } else {
            k
        };
        if c >= ls.len() {
            Parsed::Failed {
                failure: failure(
                    "UnexpectedEof"@,
                    c,
                    "UnexpectedEof"@,
                    "looking for "@ + end + " (started at line "@ + decimal((p + 1) as nat) + ")"@,
                ),
                at: c,
            }
        } else {
            Parsed::Done { value: join(ls.subrange(p, k), "\n"@), at: c }
        }
    }
}

/// Lines that end the body of a creation: `END_CHANGE`, or the start of its content.
pub open spec fn create_stop() -> spec_fn(Seq<char>) -> bool {
    |l: Seq<char>| starts_with(l, "END_CHANGE"@) || starts_with(trim(l), "CONTENT:"@)
}

/// The `END_CHANGE` line that closes a creation with header `h` and content `c`.
pub open spec fn create_finish(ls: Seq<Seq<char>>, h: Header, c: Seq<char>, r: int) -> Parsed<
    FileChangeView,
> {
    if !starts_with(trim(line_at(ls, r)), "END_CHANGE"@) {
        Parsed::Failed { failure: expect_failure(ls, r, "END_CHANGE"@), at: r }
    } else {
        Parsed::Done {
            value: FileChangeView::CreateFile {
                file_path: h.file->0,
                reason: h.reason->0,
                severity: h.severity->0,
                category: h.category->0,
                content: c,
            },
            at: r + 1,
        }
    }
}

/// A creation: its header, an optional `CONTENT:` block, and the `END_CHANGE` line.
pub open spec fn create_step(ls: Seq<Seq<char>>, p: int) -> Parsed<FileChangeView> {
    match required_step(ls, p) {
        Parsed::Done { value: h, at: q } => {
            let j = scan(ls, q, create_stop());
            if 0 <= j < ls.len() && !starts_with(ls[j], "END_CHANGE"@) {
                match content_step(ls, j + 1, "END_CONTENT"@) {
                    Parsed::Done { value: c, at: r } => create_finish(ls, h, c, r),
                    other => lift(other),
                }
            } else {
                create_finish(ls, h, Seq::empty(), j)
            }
        },
        other => lift(other),
    }
}

/// A deletion: its header and the `END_CHANGE` line.
pub open spec fn delete_file_step(ls: Seq<Seq<char>>, p: int) -> Parsed<FileChangeView> {
    match required_step(ls, p) {
        Parsed::Done { value: h, at: q } => {
            let j = scan(ls, q, raw_starts("END_CHANGE"@));
            if !starts_with(trim(line_at(ls, j)), "END_CHANGE"@) {
                Parsed::Failed { failure: expect_failure(ls, j, "END_CHANGE"@), at: j }
            } else {
                Parsed::Done {
                    value: FileChangeView::DeleteFile {
                        file_path: h.file->0,
                        reason: h.reason->0,
                        severity: h.severity->0,
                        category: h.category->0,
                    },
                    at: j + 1,
                }
            }
        },
        other => lift(other),
    }
}

/// A `CHANGE: kind` line and the change of that kind.
pub open spec fn change_step(ls: Seq<Seq<char>>, p: int) -> Parsed<FileChangeView> {
    let t = trim(line_at(ls, p));
    if !starts_with(t, "CHANGE:"@) {
        Parsed::Failed { failure: failure("InvalidFormat"@, p, "InvalidFormat"@, t), at: p }
    } else {
        let kind = trim(t.skip("CHANGE:"@.len() as int));
        if kind == "modify_file"@ {
            modify_step(ls, p + 1)
        } else if kind == "create_file"@ {
            create_step(ls, p + 1)
        } else if kind == "delete_file"@ {
            delete_file_step(ls, p + 1)
        } else {
            Parsed::Failed {
                failure: failure("UnknownChangeType"@, p + 1, "UnknownChangeType"@, kind),
                at: p + 1,
            }
        }
    }
}

/// After a change that did not parse at line `p`: the next `CHANGE:` line, or
/// the line after the next `END_CHANGE`.
pub open spec fn skip_change(ls: Seq<Seq<char>>, p: int) -> int {
    let k = scan(ls, p, trimmed_starts_either("CHANGE:"@, "END_CHANGE"@));
    if 0 <= k < ls.len() && starts_with(ls[k], "END_CHANGE"@) {
        k + 1
    } else {
        k
    }
}

/// The changes from line `q` to the end; a change that does not parse is skipped.
pub open spec fn changes_from(ls: Seq<Seq<char>>, q: int, acc: Seq<FileChangeView>) -> Parsed<
    Seq<FileChangeView>,
>
    decreases ls.len() + 2 - q,
{
    if q < 0 || q >= ls.len() {
        Parsed::Done { value: acc, at: q }
    } else if trim(ls[q]).len() == 0 {
        changes_from(ls, q + 1, acc)
    } else if starts_with(ls[q], "CHANGE:"@) {
        match change_step(ls, q) {
            Parsed::Done { value, at } => if q < at <= ls.len() + 1 {
                changes_from(ls, at, acc.push(value))
            } else {
                Parsed::Done { value: acc, at: q }
            },
            Parsed::Failed { at, .. } => {
                let s = skip_change(ls, at);
                if q < s <= ls.len() + 1 {
                    changes_from(ls, s, acc)
                } else {
                    Parsed::Done { value: acc, at: q }
                }
            },
            Parsed::Stalls => Parsed::Stalls,
        }
    } else {
        changes_from(ls, q + 1, acc)
    }
}

/// The trimmed lines that are not blank, in order.
pub open spec fn nonblank(s: Seq<Seq<char>>) -> Seq<Seq<char>>
    decreases s.len(),
{
    if s.len() == 0 {
        Seq::empty()
    } else if trim(s.last()).len() > 0 {
        nonblank(s.drop_last()).push(trim(s.last()))
    } else {
        nonblank(s.drop_last())
    }
}

/// The failure of a report without a summary.
pub open spec fn summary_missing(at: int) -> ParseFailure {
    failure("ParseError"@, at, "ParseError"@, "Analysis summary marker not found"@)
}

/// The `ANALYSIS_SUMMARY:` section: its non-blank lines, trimmed and joined
/// with newlines, up to the first line that starts with `CHANGE:`.
pub open spec fn summary_step(ls: Seq<Seq<char>>, p: int) -> Parsed<Seq<char>> {
    let k = scan(ls, p, trimmed_starts("ANALYSIS_SUMMARY:"@));
    if k < 0 || k >= ls.len() {
        Parsed::Failed { failure: summary_missing(k), at: k }
    } else {
        let j = scan(ls, k + 1, raw_starts("CHANGE:"@));
        let parts = nonblank(ls.subrange(k + 1, j));
        if parts.len() == 0 {
            Parsed::Failed { failure: summary_missing(j), at: j }
        } else {
            Parsed::Done { value: join(parts, "\n"@), at: j }
        }
    }
}

/// The name of single-valued field number `i` of a technology stack.
pub open spec fn stack_field(i: int) -> Seq<char> {
    if i == 0 {
        "PRIMARY_LANGUAGE:"@
    } else if i == 1 {
        "FRAMEWORK:"@
    } else if i == 2 {
        "RUNTIME:"@
    } else if i == 3 {
        "PACKAGE_MANAGER:"@
    } else if i == 4 {
        "DATABASE:"@
    } else if i == 5 {
        "ORM:"@
    } else if i == 6 {
        "TESTING:"@
    } else if i == 7 {
        "BUILD_TOOLS:"@
    } else if i == 8 {
        "LINTING:"@
    } else if i == 9 {
        "CONTAINERIZATION:"@
    } else if i == 10 {
        "CLOUD_SERVICES:"@
    } else if i == 11 {
        "AUTHENTICATION:"@
    } else if i == 12 {
        "API_TYPE:"@
    } else {
        "ARCHITECTURE_PATTERN:"@
    }
}

/// The first single-valued field, from number `i` on, whose name starts the
/// trimmed line `t`; the number of fields if none does.
pub open spec fn first_stack_field(t: Seq<char>, i: int) -> int
    decreases stack_field_count() - i,
{
    if i < 0 || i >= stack_field_count() {
        stack_field_count() as int
    } else if starts_with(t, stack_field(i)) {
        i
    } else {
        first_stack_field(t, i + 1)
    }
}

/// The entries that the `key: value` lines set, in order; a line without `':'` sets nothing.
pub open spec fn kv_entries(s: Seq<Seq<char>>) -> Seq<(Seq<char>, Seq<char>)>
    decreases s.len(),
{
    if s.len() == 0 {
        Seq::empty()
    } else {
        let m = kv_entries(s.drop_last());
        let t = trim(s.last());
        let c = find_from(t, ':', 0);
        if c < t.len() {
            insert_entry(m, trim(t.take(c)), trim(t.skip(c + 1)))
        } else {
            m
        }
    }
}

/// A `key: value` section from line `p` up to the line that starts with `end`:
/// its entries, and the line after it (or the end of the text).
pub open spec fn kv_section(ls: Seq<Seq<char>>, p: int, end: Seq<char>) -> (
    Seq<(Seq<char>, Seq<char>)>,
    int,
) {
    let k = scan(ls, p, trimmed_starts(end));
    let entries = if 0 <= p <= k <= ls.len() {
        kv_entries(ls.subrange(p, k))
    } else {
        Seq::empty()
    };
    if k < ls.len() {
        (entries, k + 1)
    } else {
        (entries, k)
    }
}

/// One line `q` of the body of a technology stack: the stack after it and the next line.
pub open spec fn stack_line(ls: Seq<Seq<char>>, q: int, st: TechnologyStackView) -> Parsed<
    TechnologyStackView,
> {
    let t = trim(line_at(ls, q));
    let i = first_stack_field(t, 0);
    if t.len() == 0 {
        Parsed::Done { value: st, at: q + 1 }
    } else if i < stack_field_count() {
        match field_value(ls, q, stack_field(i)) {
            Some(v) => Parsed::Done {
                value: TechnologyStackView { fields: st.fields.update(i, Some(v)), ..st },
                at: q + 1,
            },
            None => Parsed::Failed { failure: missing_prefix(q, stack_field(i)), at: q },
        }
    } else if starts_with(t, "DEPENDENCIES:"@) {
        let (m, at) = kv_section(ls, q + 1, "END_DEPENDENCIES"@);
        Parsed::Done { value: TechnologyStackView { dependencies: m, ..st }, at }
    } else if starts_with(t, "CRITICAL_CONFIGS:"@) {
        let (m, at) = kv_section(ls, q + 1, "END_CRITICAL_CONFIGS"@);
        Parsed::Done { value: TechnologyStackView { critical_configs: m, ..st }, at }
    } else {
        Parsed::Done { value: st, at: q + 1 }
    }
}

/// The body of a technology stack from line `q` to `END_TECHNOLOGY_STACK`.
/// A line always moves the reader on; the bounds only make termination evident.
pub open spec fn stack_from(ls: Seq<Seq<char>>, q: int, st: TechnologyStackView) -> Parsed<
    TechnologyStackView,
>
    decreases ls.len() + 2 - q,
{
    if q < 0 || q >= ls.len() || starts_with(trim(ls[q]), "END_TECHNOLOGY_STACK"@) {
        if !starts_with(trim(line_at(ls, q)), "END_TECHNOLOGY_STACK"@) {
            Parsed::Failed { failure: expect_failure(ls, q, "END_TECHNOLOGY_STACK"@), at: q }
        } else {
            Parsed::Done { value: st, at: q + 1 }
        }
    } else {
        match stack_line(ls, q, st) {
            Parsed::Done { value, at } => if q < at <= ls.len() + 1 {
                stack_from(ls, at, value)
            } else {
                Parsed::Done { value: st, at: q }
            },
            other => other,
        }
    }
}

/// The `TECHNOLOGY_STACK:` block at or after line `p`.
pub open spec fn stack_step(ls: Seq<Seq<char>>, p: int) -> Parsed<TechnologyStackView> {
    let k = scan(ls, p, trimmed_starts("TECHNOLOGY_STACK:"@));
    if k < 0 || k >= ls.len() {
        Parsed::Failed {
            failure: failure(
                "ParseError"@,
                k,
                "ParseError"@,
                "Technology stack marker not found"@,
            ),
            at: k,
        }
    } else {
        stack_from(ls, k + 1, empty_stack())
    }
}

/// Some line of the text, trimmed, starts with `TECHNOLOGY_STACK:`.
pub open spec fn has_stack(ls: Seq<Seq<char>>) -> bool {
    scan(ls, 0, trimmed_starts("TECHNOLOGY_STACK:"@)) < ls.len()
}

/// The summary and the changes, after the technology stack `st`.
pub open spec fn after_stack(ls: Seq<Seq<char>>, st: Option<TechnologyStackView>, q: int) -> Parsed<
    AnalysisResponseView,
> {
    match summary_step(ls, q) {
        Parsed::Done { value: s, at: r } => match changes_from(ls, r, Seq::empty()) {
            Parsed::Done { value: cs, at } => Parsed::Done {
                value: AnalysisResponseView {
                    technology_stack: st,
                    analysis_summary: s,
                    changes: cs,
                },
                at,
            },
            other => lift(other),
        },
        other => lift(other),
    }
}

/// A whole report read from line `p`: the technology stack if the text has one,
/// the summary, and the changes.
pub open spec fn report_step(ls: Seq<Seq<char>>, p: int) -> Parsed<AnalysisResponseView> {
    if has_stack(ls) {
        match stack_step(ls, p) {
            Parsed::Done { value: st, at } => after_stack(ls, Some(st), at),
            other => lift(other),
        }
    } else {
        after_stack(ls, None, p)
    }
}

} // verus!

verus! {

/// Reads an analysis report line by line.
pub struct AnalysisParser {
    lines: Vec<Vec<char>>,
    current: usize,
}

/// The header fields as the change types hold them.
pub open spec fn header_view(h: (String, String, String, String)) -> Header {
    Header { file: Some(h.0@), reason: Some(h.1@), severity: Some(h.2@), category: Some(h.3@) }
}

impl AnalysisParser {
    /// The lines of the text.
    pub closed spec fn text(&self) -> Seq<Seq<char>> {
        views(self.lines@)
    }

    /// The index of the current line.
    pub closed spec fn position(&self) -> int {
        self.current as int
    }

    /// Line numbers fit in a `usize`, and the reader is at most one line past the end.
    pub closed spec fn wf(&self) -> bool {
        &&& self.lines@.len() + 3 <= usize::MAX
        &&& self.current <= self.lines@.len() + 1
    }

    /// The reader is on a line of the text or just past its end.
    pub closed spec fn within(&self) -> bool {
        self.current <= self.lines@.len()
    }

    /// A reader at the first line of `input`.
    pub fn new(input: &str) -> (res: Self)
        requires
            input@.len() + 3 <= usize::MAX,
        ensures
            res.wf(),
            res.text() == lines_of(input@),
            res.position() == 0,
    {
        AnalysisParser { lines: lines_of_str(input), current: 0 }
    }

    /// The current line, empty past the end.
    fn current_line(&self) -> (res: Vec<char>)
        ensures
            res@ == line_at(self.text(), self.position()),
    {
        line_chars(&self.lines, self.current)
    }

    /// Moves to the next line.
    fn advance(&mut self)
        requires
            old(self).wf(),
            old(self).within(),
        ensures
            final(self).wf(),
            final(self).lines == old(self).lines,
            final(self).current == old(self).current + 1,
    {
        self.current = self.current + 1;
    }

    /// The reader is past the last line.
    fn is_eof(&self) -> (res: bool)
        ensures
            res == (self.position() >= self.text().len()),
    {
        self.current >= self.lines.len()
    }

    /// Checks that the trimmed current line starts with `expected`.
    fn expect_line(&self, expected: &str) -> (res: AicedResult<()>)
        requires
            self.wf(),
        ensures
            match res {
                Ok(_) => starts_with(trim(line_at(self.text(), self.position())), expected@),
                Err(e) => !starts_with(trim(line_at(self.text(), self.position())), expected@)
                    && reports(e, expect_failure(self.text(), self.position(), expected@)),
            },
    {
        let t = trimmed_line(&self.lines, self.current);
        let m = to_chars(expected);
        if !starts_with_chars(t.as_slice(), m.as_slice()) {
            let found = from_chars(t.as_slice());
            return Err(
                AicedError::parse_error(
                    "expect_line",
                    Some(self.current + 1),
                    expected,
                    Some(found.as_str()),
                ),
            );
        }
        Ok(())
    }

    /// The value of the field `prefix` on the current line; moves past it.
    fn parse_field(&mut self, prefix: &str) -> (res: AicedResult<String>)
        requires
            old(self).wf(),
        ensures
            final(self).wf(),
            final(self).lines == old(self).lines,
            final(self).position() >= old(self).position(),
            old(self).within() ==> final(self).within(),
            agrees(
                res,
                final(self).position(),
                field_step(old(self).text(), old(self).position(), prefix@),
                |s: String| s@,
            ),
    {
        match field_at(&self.lines, self.current, prefix) {
            Some(v) => {
                self.current = self.current + 1;
                Ok(chars_string(&v))
            },
            None => Err(
                AicedError::parse_error(
                    "InvalidFormat",
                    Some(self.current + 1),
                    "InvalidFormat",
                    Some(prefix),
                ),
            ),
        }
    }

    /// The number in the field `prefix` on the current line; moves past it.
    fn parse_number_field(&mut self, prefix: &str) -> (res: AicedResult<usize>)
        requires
            old(self).wf(),
        ensures
            final(self).wf(),
            final(self).lines == old(self).lines,
            final(self).position() >= old(self).position(),
            old(self).within() ==> final(self).within(),
            agrees(
                res,
                final(self).position(),
                number_step(old(self).text(), old(self).position(), prefix@),
                |n: usize| n,
            ),
    {
        let value = match self.parse_field(prefix) {
            Ok(v) => v,
            Err(e) => return Err(e),
        };
        let cs = to_chars(value.as_str());
        match parse_usize_chars(cs.as_slice()) {
            Some(n) => Ok(n),
            None => Err(
                AicedError::parse_error(
                    "InvalidNumber",
                    Some(self.current + 1),
                    "InvalidNumber",
                    Some(value.as_str()),
                ),
            ),
        }
    }

    /// The lines up to the one whose trimmed text starts with `end_marker`; moves past that line.
    fn parse_lines_until(&mut self, end_marker: &str) -> (res: AicedResult<Vec<String>>)
        requires
            old(self).wf(),
        ensures
            final(self).wf(),
            final(self).lines == old(self).lines,
            final(self).position() >= old(self).position(),
            old(self).within() ==> final(self).within(),
            agrees(
                res,
                final(self).position(),
                lines_step(old(self).text(), old(self).position(), end_marker@),
                |v: Vec<String>| string_views(v@),
            ),
    {
        let k = scan_trimmed(&self.lines, self.current, end_marker);
        if k >= self.lines.len() {
            self.current = k;
            let mut reason = owned("looking for ");
            reason.append(end_marker);
            return Err(
                AicedError::parse_error(
                    "UnexpectedEof",
                    Some(k + 1),
                    "UnexpectedEof",
                    Some(reason.as_str()),
                ),
            );
        }
        let block = copy_lines(&self.lines, self.current, k);
        self.current = k + 1;
        Ok(strings_of(&block))
    }

    /// A `marker` line, then the lines up to `end_marker`.
    fn parse_block(&mut self, marker: &str, end_marker: &str) -> (res: AicedResult<Vec<String>>)
        requires
            old(self).wf(),
            marker@.len() > 0,
        ensures
            final(self).wf(),
            final(self).lines == old(self).lines,
            final(self).position() >= old(self).position(),
            old(self).within() ==> final(self).within(),
            agrees(
                res,
                final(self).position(),
                block_step(old(self).text(), old(self).position(), marker@, end_marker@),
                |v: Vec<String>| string_views(v@),
            ),
    {
        match self.expect_line(marker) {
            Ok(_) => {},
            Err(e) => return Err(e),
        }
        self.advance();
        self.parse_lines_until(end_marker)
    }

    /// `LINE:`, `OLD:`, `NEW:` of a replacement.
    fn parse_replace_action(&mut self) -> (res: AicedResult<LineChange>)
        requires
            old(self).wf(),
        ensures
            final(self).wf(),
            final(self).lines == old(self).lines,
            final(self).position() >= old(self).position(),
            old(self).within() ==> final(self).within(),
            agrees(res, final(self).position(), replace_step(old(self).text(), old(self).position()), |c: LineChange| c@),
    {
        let line_number = match self.parse_number_field("LINE:") {
            Ok(n) => n,
            Err(e) => return Err(e),
        };
        let old_content = match self.parse_field("OLD:") {
            Ok(v) => v,
            Err(e) => return Err(e),
        };
        let new_content = match self.parse_field("NEW:") {
            Ok(v) => v,
            Err(e) => return Err(e),
        };
        Ok(LineChange::Replace { line_number, old_content, new_content })
    }

    /// `LINE:`, `NEW:` of an insertion after a line.
    fn parse_insert_after_action(&mut self) -> (res: AicedResult<LineChange>)
        requires
            old(self).wf(),
        ensures
            final(self).wf(),
            final(self).lines == old(self).lines,
            final(self).position() >= old(self).position(),
            old(self).within() ==> final(self).within(),
            agrees(res, final(self).position(), insert_after_step(old(self).text(), old(self).position()), |c: LineChange| c@),
    {
        let line_number = match self.parse_number_field("LINE:") {
            Ok(n) => n,
            Err(e) => return Err(e),
        };
        let new_content = match self.parse_field("NEW:") {
            Ok(v) => v,
            Err(e) => return Err(e),
        };
        Ok(LineChange::InsertAfter { line_number, new_content })
    }

    /// `LINE:`, `NEW:` of an insertion before a line.
    fn parse_insert_before_action(&mut self) -> (res: AicedResult<LineChange>)
        requires
            old(self).wf(),
        ensures
            final(self).wf(),
            final(self).lines == old(self).lines,
            final(self).position() >= old(self).position(),
            old(self).within() ==> final(self).within(),
            agrees(res, final(self).position(), insert_before_step(old(self).text(), old(self).position()), |c: LineChange| c@),
    {
        let line_number = match self.parse_number_field("LINE:") {
            Ok(n) => n,
            Err(e) => return Err(e),
        };
        let new_content = match self.parse_field("NEW:") {
            Ok(v) => v,
            Err(e) => return Err(e),
        };
        Ok(LineChange::InsertBefore { line_number, new_content })
    }

    /// `LINE:` and a `NEW_LINES:` block of an insertion of several lines after a line.
    fn parse_insert_many_after_action(&mut self) -> (res: AicedResult<LineChange>)
        requires
            old(self).wf(),
        ensures
            final(self).wf(),
            final(self).lines == old(self).lines,
            final(self).position() >= old(self).position(),
            old(self).within() ==> final(self).within(),
            agrees(res, final(self).position(), insert_many_after_step(old(self).text(), old(self).position()), |c: LineChange| c@),
    {
        let line_number = match self.parse_number_field("LINE:") {
            Ok(n) => n,
            Err(e) => return Err(e),
        };
        proof {
            reveal_strlit("NEW_LINES:");
        }
        let new_lines = match self.parse_block("NEW_LINES:", "END_NEW_LINES") {
            Ok(v) => v,
            Err(e) => return Err(e),
        };
        Ok(LineChange::InsertManyAfter { line_number, new_lines })
    }

    /// `LINE:` and a `NEW_LINES:` block of an insertion of several lines before a line.
    fn parse_insert_many_before_action(&mut self) -> (res: AicedResult<LineChange>)
        requires
            old(self).wf(),
        ensures
            final(self).wf(),
            final(self).lines == old(self).lines,
            final(self).position() >= old(self).position(),
            old(self).within() ==> final(self).within(),
            agrees(res, final(self).position(), insert_many_before_step(old(self).text(), old(self).position()), |c: LineChange| c@),
    {
        let line_number = match self.parse_number_field("LINE:") {
            Ok(n) => n,
            Err(e) => return Err(e),
        };
        proof {
            reveal_strlit("NEW_LINES:");
        }
        let new_lines = match self.parse_block("NEW_LINES:", "END_NEW_LINES") {
            Ok(v) => v,
            Err(e) => return Err(e),
        };
        Ok(LineChange::InsertManyBefore { line_number, new_lines })
    }

    /// `LINE:` of a deletion.
    fn parse_delete_action(&mut self) -> (res: AicedResult<LineChange>)
        requires
            old(self).wf(),
        ensures
            final(self).wf(),
            final(self).lines == old(self).lines,
            final(self).position() >= old(self).position(),
            old(self).within() ==> final(self).within(),
            agrees(res, final(self).position(), delete_step(old(self).text(), old(self).position()), |c: LineChange| c@),
    {
        let line_number = match self.parse_number_field("LINE:") {
            Ok(n) => n,
            Err(e) => return Err(e),
        };
        Ok(LineChange::Delete { line_number })
    }

    /// The error of a range whose start is after its end.
    fn range_error(&self, start_line: usize, end_line: usize) -> (res: AicedError)
        requires
            self.wf(),
        ensures
            reports(res, range_failure(self.position(), start_line, end_line)),
    {
        let mut reason = owned("Invalid line range: start_line (");
        push_decimal(&mut reason, start_line);
        reason.append(") > end_line (");
        push_decimal(&mut reason, end_line);
        reason.append(")");
        AicedError::parse_error("ParseError", Some(self.current), "InvalidFormat", Some(reason.as_str()))
    }

    /// `START_LINE:`, `END_LINE:` of a deletion of several lines.
    fn parse_delete_many_action(&mut self) -> (res: AicedResult<LineChange>)
        requires
            old(self).wf(),
        ensures
            final(self).wf(),
            final(self).lines == old(self).lines,
            final(self).position() >= old(self).position(),
            old(self).within() ==> final(self).within(),
            agrees(res, final(self).position(), delete_many_step(old(self).text(), old(self).position()), |c: LineChange| c@),
    {
        let start_line = match self.parse_number_field("START_LINE:") {
            Ok(n) => n,
            Err(e) => return Err(e),
        };
        let end_line = match self.parse_number_field("END_LINE:") {
            Ok(n) => n,
            Err(e) => return Err(e),
        };
        if start_line > end_line {
            return Err(self.range_error(start_line, end_line));
        }
        Ok(LineChange::DeleteMany { start_line, end_line })
    }

    /// `START_LINE:`, `END_LINE:`, `OLD_LINES:` and `NEW_LINES:` blocks of a range replacement.
    fn parse_replace_range_action(&mut self) -> (res: AicedResult<LineChange>)
        requires
            old(self).wf(),
        ensures
            final(self).wf(),
            final(self).lines == old(self).lines,
            final(self).position() >= old(self).position(),
            old(self).within() ==> final(self).within(),
            agrees(res, final(self).position(), replace_range_step(old(self).text(), old(self).position()), |c: LineChange| c@),
    {
        let start_line = match self.parse_number_field("START_LINE:") {
            Ok(n) => n,
            Err(e) => return Err(e),
        };
        let end_line = match self.parse_number_field("END_LINE:") {
            Ok(n) => n,
            Err(e) => return Err(e),
        };
        if start_line > end_line {
            return Err(self.range_error(start_line, end_line));
        }
        proof {
            reveal_strlit("OLD_LINES:");
            reveal_strlit("NEW_LINES:");
        }
        let old_content = match self.parse_block("OLD_LINES:", "END_OLD_LINES") {
            Ok(v) => v,
            Err(e) => return Err(e),
        };
        let new_content = match self.parse_block("NEW_LINES:", "END_NEW_LINES") {
            Ok(v) => v,
            Err(e) => return Err(e),
        };
        Ok(LineChange::ReplaceRange { start_line, end_line, old_content, new_content })
    }

    /// An `ACTION:` line and the line edit it names.
    fn parse_line_action(&mut self) -> (res: AicedResult<LineChange>)
        requires
            old(self).wf(),
        ensures
            final(self).wf(),
            final(self).lines == old(self).lines,
            final(self).position() >= old(self).position(),
            res is Ok ==> final(self).position() > old(self).position(),
            old(self).within() ==> final(self).within(),
            agrees(res, final(self).position(), action_step(old(self).text(), old(self).position()), |c: LineChange| c@),
    {
        let action_type = match self.parse_field("ACTION:") {
            Ok(v) => v,
            Err(e) => return Err(e),
        };
        let current_line = self.current;
        let a = action_type.as_str();
        if str_eq(a, "replace") {
            self.parse_replace_action()
        } else if str_eq(a, "insert_after") {
            self.parse_insert_after_action()
        } else if str_eq(a, "insert_before") {
            self.parse_insert_before_action()
        } else if str_eq(a, "insert_many_after") {
            self.parse_insert_many_after_action()
        } else if str_eq(a, "insert_many_before") {
            self.parse_insert_many_before_action()
        } else if str_eq(a, "delete") {
            self.parse_delete_action()
        } else if str_eq(a, "delete_many") {
            self.parse_delete_many_action()
        } else if str_eq(a, "replace_range") {
            self.parse_replace_range_action()
        } else {
            Err(AicedError::parse_error("UnknownActionType", Some(current_line), "UnknownActionType", Some(a)))
        }
    }

    /// After an edit that did not parse: moves to the next `ACTION:` or `END_CHANGE` line.
    fn skip_to_next_action(&mut self)
        requires
            old(self).wf(),
            old(self).within(),
        ensures
            final(self).wf(),
            final(self).lines == old(self).lines,
            final(self).position() == skip_action(old(self).text(), old(self).position()),
            final(self).position() > old(self).position(),
    {
        self.advance();
        self.current = scan_trimmed_either(&self.lines, self.current, "ACTION:", "END_CHANGE");
    }

    /// Whether the trimmed current line ends the header of a change.
    fn is_terminator(&self) -> (res: bool)
        ensures
            res == is_terminator(line_at(self.text(), self.position())),
    {
        trimmed_starts_with(&self.lines, self.current, "END_CHANGE")
            || trimmed_starts_with(&self.lines, self.current, "ACTION:")
            || trimmed_starts_with(&self.lines, self.current, "CONTENT:")
    }

    /// Whether a trimmed line starts with one of the field names of the format.
    fn is_recognized_field_static(line: &[char]) -> (res: bool)
        ensures
            res == recognized_field(line@),
    {
        chars_start_with(line, "FILE:") || chars_start_with(line, "REASON:") || chars_start_with(
            line,
            "SEVERITY:",
        ) || chars_start_with(line, "CATEGORY:") || chars_start_with(line, "ACTION:")
            || chars_start_with(line, "LINE:") || chars_start_with(line, "START_LINE:")
            || chars_start_with(line, "END_LINE:") || chars_start_with(line, "OLD:")
            || chars_start_with(line, "NEW:") || chars_start_with(line, "CONTENT:")
            || chars_start_with(line, "NEW_LINES:")
    }

    /// The header of a change: file, reason, severity and category, in that order.
    fn parse_required_fields(&mut self) -> (res: AicedResult<(String, String, String, String)>)
        requires
            old(self).wf(),
            !(required_step(old(self).text(), old(self).position()) is Stalls),
        ensures
            final(self).wf(),
            final(self).lines == old(self).lines,
            final(self).position() >= old(self).position(),
            old(self).within() ==> final(self).within(),
            agrees(
                res,
                final(self).position(),
                required_step(old(self).text(), old(self).position()),
                |h: (String, String, String, String)| header_view(h),
            ),
    {
        let mut file: Option<String> = None;
        let mut reason: Option<String> = None;
        let mut severity: Option<String> = None;
        let mut category: Option<String> = None;
        while !self.is_eof() && !self.is_terminator()
            invariant
                self.wf(),
                self.lines == old(self).lines,
                self.position() >= old(self).position(),
                old(self).within() ==> self.within(),
                header_from(self.text(), old(self).position(), no_header()) == header_from(
                    self.text(),
                    self.position(),
                    Header {
                        file: opt_view(file),
                        reason: opt_view(reason),
                        severity: opt_view(severity),
                        category: opt_view(category),
                    },
                ),
                !(required_step(self.text(), old(self).position()) is Stalls),
            decreases self.lines@.len() - self.current,
        {
            let line = trimmed_line(&self.lines, self.current);
            if chars_start_with(line.as_slice(), "FILE:") {
                match self.parse_field("FILE:") {
                    Ok(v) => file = Some(v),
                    Err(e) => return Err(e),
                }
            } else if chars_start_with(line.as_slice(), "REASON:") {
                match self.parse_field("REASON:") {
                    Ok(v) => reason = Some(v),
                    Err(e) => return Err(e),
                }
            } else if chars_start_with(line.as_slice(), "SEVERITY:") {
                match self.parse_field("SEVERITY:") {
                    Ok(v) => severity = Some(v),
                    Err(e) => return Err(e),
                }
            } else if chars_start_with(line.as_slice(), "CATEGORY:") {
                match self.parse_field("CATEGORY:") {
                    Ok(v) => category = Some(v),
                    Err(e) => return Err(e),
                }
            } else if !Self::is_recognized_field_static(line.as_slice()) {
                self.advance();
            } else {
                // A field of another part of the format, inside the header:
                // the header would never end, which the precondition rules out.
                assert(false);
            }
        }
        proof {
            let h = Header {
                file: opt_view(file),
                reason: opt_view(reason),
                severity: opt_view(severity),
                category: opt_view(category),
            };
            if self.current < self.lines.len() {
                assert(line_at(self.text(), self.position()) == self.text()[self.position()]);
            }
            assert(header_from(self.text(), self.position(), h) == Parsed::<Header>::Done {
                value: h,
                at: self.position(),
            });
        }
        let file = match file {
            Some(v) => v,
            None => return Err(
                AicedError::parse_error("MissingField", Some(self.current), "MissingField", Some("FILE:")),
            ),
        };
        let reason = match reason {
            Some(v) => v,
            None => return Err(
                AicedError::parse_error("MissingField", Some(self.current), "MissingField", Some("REASON:")),
            ),
        };
        let severity = match severity {
            Some(v) => v,
            None => return Err(
                AicedError::parse_error("MissingField", Some(self.current), "MissingField", Some("SEVERITY:")),
            ),
        };
        let category = match category {
            Some(v) => v,
            None => return Err(
                AicedError::parse_error("MissingField", Some(self.current), "MissingField", Some("CATEGORY:")),
            ),
        };
        Ok((file, reason, severity, category))
    }

    /// A modification: its header, its line edits up to `END_CHANGE`, and that line.
    fn parse_modify_file(&mut self) -> (res: AicedResult<FileChange>)
        requires
            old(self).wf(),
            !(modify_step(old(self).text(), old(self).position()) is Stalls),
        ensures
            final(self).wf(),
            final(self).lines == old(self).lines,
            final(self).position() >= old(self).position(),
            agrees(res, final(self).position(), modify_step(old(self).text(), old(self).position()), |c: FileChange| c@),
    {
        let (file_path, reason, severity, category) = match self.parse_required_fields() {
            Ok(h) => h,
            Err(e) => return Err(e),
        };
        let ghost q0 = self.position();
        let mut line_changes: Vec<LineChange> = Vec::new();
        assert(change_views(line_changes@) =~= Seq::<LineChangeView>::empty());
        loop
            invariant
                self.wf(),
                self.lines == old(self).lines,
                self.position() >= q0 >= old(self).position(),
                actions_from(self.text(), q0, Seq::empty()) == actions_from(
                    self.text(),
                    self.position(),
                    change_views(line_changes@),
                ),
            ensures
                self.wf(),
                self.lines == old(self).lines,
                self.position() >= q0,
                actions_from(self.text(), q0, Seq::empty()) == (
                    change_views(line_changes@),
                    self.position(),
                ),
            decreases self.lines@.len() + 2 - self.current,
        {
            if self.is_eof() || raw_starts_with(&self.lines, self.current, "END_CHANGE") {
                break;
            }
            assert(line_at(self.text(), self.position()) == self.text()[self.position()]);
            if trimmed_starts_with(&self.lines, self.current, "ACTION:") {
                match self.parse_line_action() {
                    Ok(action) => {
                        let ghost before = change_views(line_changes@);
                        let ghost a = action@;
                        line_changes.push(action);
                        assert(change_views(line_changes@) =~= before.push(a));
                    },
                    Err(_) => {
                        self.skip_to_next_action();
                    },
                }
            } else {
                self.advance();
            }
        }
        match self.expect_line("END_CHANGE") {
            Ok(_) => {},
            Err(e) => return Err(e),
        }
        proof {
            reveal_strlit("END_CHANGE");
        }
        self.advance();
        Ok(FileChange::ModifyFile { file_path, reason, severity, category, line_changes })
    }

    /// The text of a content block up to the line whose trimmed text is `end_marker`.
    fn parse_content_until_fixed(&mut self, end_marker: &str) -> (res: AicedResult<String>)
        requires
            old(self).wf(),
            old(self).within(),
        ensures
            final(self).wf(),
            final(self).lines == old(self).lines,
            final(self).position() >= old(self).position(),
            agrees(
                res,
                final(self).position(),
                content_step(old(self).text(), old(self).position(), end_marker@),
                |s: String| s@,
            ),
    {
        let start_line = self.current;
        let k = scan_trimmed_equals(&self.lines, start_line, end_marker);
        if k - start_line > 10000 {
            self.current = start_line + 10001;
            let mut reason = owned("Content block too large (>10000 lines), possible missing ");
            reason.append(end_marker);
            return Err(
                AicedError::parse_error(
                    "ContentTooLarge",
                    Some(self.current),
                    "ContentTooLarge",
                    Some(reason.as_str()),
                ),
            );
        }
        self.current = if k < self.lines.len() {
            k + 1
        } else {
            k
        };
        if self.is_eof() {
            let mut reason = owned("looking for ");
            reason.append(end_marker);
            reason.append(" (started at line ");
            push_decimal(&mut reason, start_line + 1);
            reason.append(")");
            return Err(
                AicedError::parse_error(
                    "UnexpectedEof",
                    Some(self.current),
                    "UnexpectedEof",
                    Some(reason.as_str()),
                ),
            );
        }
        let block = copy_lines(&self.lines, start_line, k);
        Ok(join_chars(&block, "\n"))
    }

    /// The first line at or after `p` that ends the body of a creation.
    fn scan_create_body(&self, p: usize) -> (res: usize)
        ensures
            res as int == scan(self.text(), p as int, create_stop()),
            res >= p,
            res <= self.text().len() || res == p,
    {
        let mut i = p;
        while i < self.lines.len() && !(raw_starts_with(&self.lines, i, "END_CHANGE")
            || trimmed_starts_with(&self.lines, i, "CONTENT:"))
            invariant
                p <= i,
                i <= self.lines@.len() || i == p,
                forall|k: int|
                    p <= k < i ==> k < self.text().len() && !create_stop()(#[trigger] self.text()[k]),
            decreases self.lines@.len() - i,
        {
            assert(line_at(self.text(), i as int) == self.text()[i as int]);
            i = i + 1;
        }
        proof {
            if i < self.lines.len() {
                assert(line_at(self.text(), i as int) == self.text()[i as int]);
            }
            lemma_scan(self.text(), p as int, i as int, create_stop());
        }
        i
    }

    /// A creation: its header, an optional `CONTENT:` block, and `END_CHANGE`.
    fn parse_create_file(&mut self) -> (res: AicedResult<FileChange>)
        requires
            old(self).wf(),
            !(create_step(old(self).text(), old(self).position()) is Stalls),
        ensures
            final(self).wf(),
            final(self).lines == old(self).lines,
            final(self).position() >= old(self).position(),
            agrees(res, final(self).position(), create_step(old(self).text(), old(self).position()), |c: FileChange| c@),
    {
        let (file_path, reason, severity, category) = match self.parse_required_fields() {
            Ok(h) => h,
            Err(e) => return Err(e),
        };
        let j = self.scan_create_body(self.current);
        self.current = j;
        let mut content = String::new();
        if j < self.lines.len() && !raw_starts_with(&self.lines, j, "END_CHANGE") {
            self.advance();
            content = match self.parse_content_until_fixed("END_CONTENT") {
                Ok(c) => c,
                Err(e) => return Err(e),
            };
        }
        match self.expect_line("END_CHANGE") {
            Ok(_) => {},
            Err(e) => return Err(e),
        }
        proof {
            reveal_strlit("END_CHANGE");
        }
        self.advance();
        Ok(FileChange::CreateFile { file_path, reason, severity, category, content })
    }

    /// A deletion: its header and `END_CHANGE`.
    fn parse_delete_file(&mut self) -> (res: AicedResult<FileChange>)
        requires
            old(self).wf(),
            !(delete_file_step(old(self).text(), old(self).position()) is Stalls),
        ensures
            final(self).wf(),
            final(self).lines == old(self).lines,
            final(self).position() >= old(self).position(),
            agrees(res, final(self).position(), delete_file_step(old(self).text(), old(self).position()), |c: FileChange| c@),
    {
        let (file_path, reason, severity, category) = match self.parse_required_fields() {
            Ok(h) => h,
            Err(e) => return Err(e),
        };
        self.current = scan_raw(&self.lines, self.current, "END_CHANGE");
        match self.expect_line("END_CHANGE") {
            Ok(_) => {},
            Err(e) => return Err(e),
        }
        proof {
            reveal_strlit("END_CHANGE");
        }
        self.advance();
        Ok(FileChange::DeleteFile { file_path, reason, severity, category })
    }

    /// A `CHANGE: kind` line and the change of that kind.
    fn parse_change(&mut self) -> (res: AicedResult<FileChange>)
        requires
            old(self).wf(),
            old(self).within(),
            !(change_step(old(self).text(), old(self).position()) is Stalls),
        ensures
            final(self).wf(),
            final(self).lines == old(self).lines,
            final(self).position() >= old(self).position(),
            starts_with(line_at(old(self).text(), old(self).position()), "CHANGE:"@)
                ==> final(self).position() > old(self).position(),
            agrees(res, final(self).position(), change_step(old(self).text(), old(self).position()), |c: FileChange| c@),
    {
        let line = trimmed_line(&self.lines, self.current);
        let marker = to_chars("CHANGE:");
        if !starts_with_chars(line.as_slice(), marker.as_slice()) {
            proof {
                let l = line_at(self.text(), self.position());
                if starts_with(l, "CHANGE:"@) {
                    reveal_strlit("CHANGE:");
                    lemma_trim_keeps_prefix(l, "CHANGE:"@);
                }
            }
            let found = from_chars(line.as_slice());
            return Err(
                AicedError::parse_error(
                    "InvalidFormat",
                    Some(self.current),
                    "InvalidFormat",
                    Some(found.as_str()),
                ),
            );
        }
        let rest = copy_range(line.as_slice(), marker.len(), line.len());
        assert(rest@ =~= line@.skip("CHANGE:"@.len() as int));
        let kind = trim_chars(rest.as_slice());
        let current_line = self.current + 1;
        self.advance();
        if chars_are(kind.as_slice(), "modify_file") {
            self.parse_modify_file()
        } else if chars_are(kind.as_slice(), "create_file") {
            self.parse_create_file()
        } else if chars_are(kind.as_slice(), "delete_file") {
            self.parse_delete_file()
        } else {
            let k = from_chars(kind.as_slice());
            Err(
                AicedError::parse_error(
                    "UnknownChangeType",
                    Some(current_line),
                    "UnknownChangeType",
                    Some(k.as_str()),
                ),
            )
        }
    }

    /// After a change that did not parse: moves to the next `CHANGE:` line, or past the next `END_CHANGE`.
    fn skip_to_next_change(&mut self)
        requires
            old(self).wf(),
        ensures
            final(self).wf(),
            final(self).lines == old(self).lines,
            final(self).position() == skip_change(old(self).text(), old(self).position()),
            final(self).position() >= old(self).position(),
    {
        self.current = scan_trimmed_either(&self.lines, self.current, "CHANGE:", "END_CHANGE");
        if self.current < self.lines.len() && raw_starts_with(&self.lines, self.current, "END_CHANGE") {
            assert(line_at(self.text(), self.position()) == self.text()[self.position()]);
            self.advance();
        }
    }

    /// The `ANALYSIS_SUMMARY:` section: its non-blank lines, trimmed, up to the first `CHANGE:` line.
    fn parse_summary(&mut self) -> (res: AicedResult<String>)
        requires
            old(self).wf(),
        ensures
            final(self).wf(),
            final(self).lines == old(self).lines,
            final(self).position() >= old(self).position(),
            agrees(res, final(self).position(), summary_step(old(self).text(), old(self).position()), |s: String| s@),
    {
        self.current = scan_trimmed(&self.lines, self.current, "ANALYSIS_SUMMARY:");
        if self.is_eof() {
            return Err(
                AicedError::parse_error(
                    "ParseError",
                    Some(self.current),
                    "ParseError",
                    Some("Analysis summary marker not found"),
                ),
            );
        }
        self.advance();
        let start = self.current;
        let j = scan_raw(&self.lines, start, "CHANGE:");
        let mut summary_lines: Vec<Vec<char>> = Vec::new();
        assert(self.text().subrange(start as int, start as int) =~= Seq::<Seq<char>>::empty());
        while self.current < j
            invariant
                self.wf(),
                self.lines == old(self).lines,
                start <= self.current <= j <= self.lines@.len(),
                views(summary_lines@) == nonblank(self.text().subrange(start as int, self.position())),
            decreases j - self.current,
        {
            let t = trimmed_line(&self.lines, self.current);
            let ghost prev = self.text().subrange(start as int, self.position());
            let ghost next = self.text().subrange(start as int, self.position() + 1);
            assert(next.drop_last() =~= prev);
            assert(next.last() == line_at(self.text(), self.position()));
            if t.len() > 0 {
                let ghost before = views(summary_lines@);
                summary_lines.push(t);
                assert(views(summary_lines@) =~= before.push(t@));
            }
            self.advance();
        }
        if summary_lines.len() == 0 {
            return Err(
                AicedError::parse_error(
                    "ParseError",
                    Some(self.current),
                    "ParseError",
                    Some("Analysis summary marker not found"),
                ),
            );
        }
        Ok(join_chars(&summary_lines, "\n"))
    }

    /// A `key: value` section up to the line that starts with `end_marker`; moves past that line.
    fn parse_key_value_section(&mut self, end_marker: &str) -> (res: AicedResult<Vec<(String, String)>>)
        requires
            old(self).wf(),
            old(self).within(),
        ensures
            final(self).wf(),
            final(self).lines == old(self).lines,
            res matches Ok(m) && pair_views(m@) == kv_section(
                old(self).text(),
                old(self).position(),
                end_marker@,
            ).0,
            final(self).position() == kv_section(old(self).text(), old(self).position(), end_marker@).1,
            final(self).position() >= old(self).position(),
    {
        let start = self.current;
        let k = scan_trimmed(&self.lines, start, end_marker);
        let mut map: Vec<(String, String)> = Vec::new();
        assert(self.text().subrange(start as int, start as int) =~= Seq::<Seq<char>>::empty());
        while self.current < k
            invariant
                self.wf(),
                self.lines == old(self).lines,
                start <= self.current <= k <= self.lines@.len(),
                pair_views(map@) == kv_entries(self.text().subrange(start as int, self.position())),
            decreases k - self.current,
        {
            let t = trimmed_line(&self.lines, self.current);
            let ghost prev = self.text().subrange(start as int, self.position());
            let ghost next = self.text().subrange(start as int, self.position() + 1);
            assert(next.drop_last() =~= prev);
            assert(next.last() == line_at(self.text(), self.position()));
            proof {
                crate::text::lemma_find_from_bounds(t@, ':', 0);
                let c = find_from(t@, ':', 0);
                assert(kv_entries(next) == (if c < t@.len() {
                    insert_entry(kv_entries(prev), trim(t@.take(c)), trim(t@.skip(c + 1)))
                } else {
                    kv_entries(prev)
                }));
            }
            match find_char(t.as_slice(), ':') {
                Some(c) => {
                    let n = t.len();
                    assert(c < n);
                    let key_part = copy_range(t.as_slice(), 0, c);
                    let value_part = copy_range(t.as_slice(), c + 1, n);
                    assert(key_part@ =~= t@.take(c as int));
                    assert(value_part@ =~= t@.skip(c + 1));
                    let key = trim_chars(key_part.as_slice());
                    let value = trim_chars(value_part.as_slice());
                    insert_pair(&mut map, chars_string(&key), chars_string(&value));
                },
                None => {},
            }
            self.advance();
        }
        if !self.is_eof() {
            self.advance();
        }
        Ok(map)
    }

    /// The name of single-valued field number `i` of a technology stack.
    fn stack_field_name(i: usize) -> (res: &'static str)
        requires
            i < stack_field_count(),
        ensures
            res@ == stack_field(i as int),
    {
        if i == 0 {
            "PRIMARY_LANGUAGE:"
        } else if i == 1 {
            "FRAMEWORK:"
        } else if i == 2 {
            "RUNTIME:"
        } else if i == 3 {
            "PACKAGE_MANAGER:"
        } else if i == 4 {
            "DATABASE:"
        } else if i == 5 {
            "ORM:"
        } else if i == 6 {
            "TESTING:"
        } else if i == 7 {
            "BUILD_TOOLS:"
        } else if i == 8 {
            "LINTING:"
        } else if i == 9 {
            "CONTAINERIZATION:"
        } else if i == 10 {
            "CLOUD_SERVICES:"
        } else if i == 11 {
            "AUTHENTICATION:"
        } else if i == 12 {
            "API_TYPE:"
        } else {
            "ARCHITECTURE_PATTERN:"
        }
    }

    /// The first single-valued field whose name starts the trimmed line `t`.
    fn first_stack_field_index(t: &[char]) -> (res: usize)
        ensures
            res == first_stack_field(t@, 0),
    {
        let mut i: usize = 0;
        while i < 14
            invariant
                i <= 14,
                first_stack_field(t@, 0) == first_stack_field(t@, i as int),
            decreases 14 - i,
        {
            if chars_start_with(t, Self::stack_field_name(i)) {
                return i;
            }
            i = i + 1;
        }
        i
    }

    /// Some line of the text, trimmed, starts with `TECHNOLOGY_STACK:`.
    fn has_technology_stack(&self) -> (res: bool)
        ensures
            res == has_stack(self.text()),
    {
        scan_trimmed(&self.lines, 0, "TECHNOLOGY_STACK:") < self.lines.len()
    }

    /// One line of the body of a technology stack.
    fn parse_stack_line(&mut self, stack: &mut TechnologyStack) -> (res: AicedResult<()>)
        requires
            old(self).wf(),
            old(self).within(),
        ensures
            final(self).wf(),
            final(self).lines == old(self).lines,
            match stack_line(old(self).text(), old(self).position(), old(stack)@) {
                Parsed::Done { value, at } => res is Ok && final(stack)@ == value && final(self).position() == at
                    && at > old(self).position(),
                Parsed::Failed { failure, at } => res matches Err(e) && reports(e, failure)
                    && final(self).position() == at,
                Parsed::Stalls => false,
            },
    {
        let t = trimmed_line(&self.lines, self.current);
        if t.len() == 0 {
            self.advance();
            return Ok(());
        }
        let i = Self::first_stack_field_index(t.as_slice());
        if i < 14 {
            match self.parse_field(Self::stack_field_name(i)) {
                Ok(v) => stack.set_field(i, v),
                Err(e) => return Err(e),
            }
        } else if chars_start_with(t.as_slice(), "DEPENDENCIES:") {
            self.advance();
            match self.parse_key_value_section("END_DEPENDENCIES") {
                Ok(m) => stack.dependencies = m,
                Err(e) => return Err(e),
            }
        } else if chars_start_with(t.as_slice(), "CRITICAL_CONFIGS:") {
            self.advance();
            match self.parse_key_value_section("END_CRITICAL_CONFIGS") {
                Ok(m) => stack.critical_configs = m,
                Err(e) => return Err(e),
            }
        } else {
            self.advance();
        }
        Ok(())
    }

    /// The `TECHNOLOGY_STACK:` block at or after the current line.
    fn parse_technology_stack(&mut self) -> (res: AicedResult<TechnologyStack>)
        requires
            old(self).wf(),
        ensures
            final(self).wf(),
            final(self).lines == old(self).lines,
            final(self).position() >= old(self).position(),
            agrees(res, final(self).position(), stack_step(old(self).text(), old(self).position()), |s: TechnologyStack| s@),
    {
        self.current = scan_trimmed(&self.lines, self.current, "TECHNOLOGY_STACK:");
        if self.is_eof() {
            return Err(
                AicedError::parse_error(
                    "ParseError",
                    Some(self.current),
                    "ParseError",
                    Some("Technology stack marker not found"),
                ),
            );
        }
        self.advance();
        let ghost q0 = self.position();
        let mut stack = TechnologyStack::default();
        loop
            invariant
                self.wf(),
                self.lines == old(self).lines,
                self.position() >= q0 > old(self).position(),
                stack_step(old(self).text(), old(self).position()) == stack_from(
                    self.text(),
                    q0,
                    empty_stack(),
                ),
                stack_from(self.text(), q0, empty_stack()) == stack_from(
                    self.text(),
                    self.position(),
                    stack@,
                ),
            ensures
                self.wf(),
                self.lines == old(self).lines,
                self.position() >= q0,
                stack_from(self.text(), q0, empty_stack()) == stack_from(
                    self.text(),
                    self.position(),
                    stack@,
                ),
                self.position() >= self.text().len() || starts_with(
                    trim(self.text()[self.position()]),
                    "END_TECHNOLOGY_STACK"@,
                ),
            decreases self.lines@.len() + 2 - self.current,
        {
            if self.is_eof() || trimmed_starts_with(&self.lines, self.current, "END_TECHNOLOGY_STACK") {
                break;
            }
            assert(line_at(self.text(), self.position()) == self.text()[self.position()]);
            let ghost q = self.position();
            let ghost st0 = stack@;
            assert(!starts_with(trim(self.text()[q]), "END_TECHNOLOGY_STACK"@));
            match self.parse_stack_line(&mut stack) {
                Ok(_) => {},
                Err(e) => {
                    assert(stack_line(self.text(), q, st0) is Failed);
                    assert(stack_from(self.text(), q, st0) == stack_line(self.text(), q, st0));
                    return Err(e);
                },
            }
        }
        match self.expect_line("END_TECHNOLOGY_STACK") {
            Ok(_) => {},
            Err(e) => return Err(e),
        }
        proof {
            reveal_strlit("END_TECHNOLOGY_STACK");
        }
        self.advance();
        Ok(stack)
    }

    /// Reads the report from the current line: the technology stack if the text
    /// has one, the summary, and every change that parses.
    pub fn parse(&mut self) -> (res: AicedResult<AnalysisResponse>)
        requires
            old(self).wf(),
            !(report_step(old(self).text(), old(self).position()) is Stalls),
        ensures
            final(self).wf(),
            final(self).text() == old(self).text(),
            agrees(res, final(self).position(), report_step(old(self).text(), old(self).position()), |r: AnalysisResponse| r@),
    {
        let mut technology_stack: Option<TechnologyStack> = None;
        if self.has_technology_stack() {
            match self.parse_technology_stack() {
                Ok(s) => technology_stack = Some(s),
                Err(e) => return Err(e),
            }
        }
        let ghost st = stack_view_opt(technology_stack);
        let ghost q = self.position();
        assert(report_step(old(self).text(), old(self).position()) == after_stack(self.text(), st, q));
        let analysis_summary = match self.parse_summary() {
            Ok(s) => s,
            Err(e) => return Err(e),
        };
        let ghost r0 = self.position();
        let mut changes: Vec<FileChange> = Vec::new();
        assert(file_change_views(changes@) =~= Seq::<FileChangeView>::empty());
        loop
            invariant
                self.wf(),
                self.lines == old(self).lines,
                self.position() >= r0,
                changes_from(self.text(), r0, Seq::empty()) == changes_from(
                    self.text(),
                    self.position(),
                    file_change_views(changes@),
                ),
                !(changes_from(self.text(), r0, Seq::empty()) is Stalls),
            ensures
                self.wf(),
                self.lines == old(self).lines,
                changes_from(self.text(), r0, Seq::empty()) == (Parsed::Done {
                    value: file_change_views(changes@),
                    at: self.position(),
                }),
            decreases self.lines@.len() + 2 - self.current,
        {
            if self.current >= self.lines.len() {
                break;
            }
            assert(line_at(self.text(), self.position()) == self.text()[self.position()]);
            if blank_line(&self.lines, self.current) {
                self.advance();
            } else if raw_starts_with(&self.lines, self.current, "CHANGE:") {
                match self.parse_change() {
                    Ok(change) => {
                        let ghost before = file_change_views(changes@);
                        let ghost c = change@;
                        changes.push(change);
                        assert(file_change_views(changes@) =~= before.push(c));
                    },
                    Err(_) => {
                        self.skip_to_next_change();
                    },
                }
            } else {
                self.advance();
            }
        }
        Ok(AnalysisResponse { technology_stack, analysis_summary, changes })
    }
}

} // verus!
