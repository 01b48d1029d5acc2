//! The edit engine: validates line changes against a file's lines and applies them.

use vstd::prelude::*;
use crate::errors::{AicedError, AicedResult, owned};
use crate::line_change::LineChange;
use crate::text::{decimal, string_views, push_decimal, push_decimal_wide, has_char, lines_of, str_has_char, lines_of_str, from_chars, trim, to_chars, trim_chars, chars_eq, push_chars};
use crate::line_change::same_change;
use crate::store::{FileStore, FileState, after_write, after_remove, full_path, make_full_path};
use crate::text::{join, join_strings};

verus! {

/// The content of a validation error: field, offending value, constraint, and suggestion.
pub struct Complaint {
    pub field: Seq<char>,
    pub value: Seq<char>,
    pub constraint: Seq<char>,
    pub suggestion: Seq<char>,
}

/// `e` is `AicedError::validation_error` with the given content.
pub open spec fn is_complaint(e: AicedError, c: Complaint) -> bool {
    e matches AicedError::ValidationError { field, value, constraint, suggestion: Some(s) }
        && field@ == c.field && value@ == c.value && constraint@ == c.constraint && s@
        == c.suggestion
}

/// A complaint about a line number, with a free-form explanation.
pub open spec fn complaint(
    field: Seq<char>,
    n: nat,
    constraint: Seq<char>,
    suggestion: Seq<char>,
) -> Complaint {
    Complaint { field, value: decimal(n), constraint, suggestion }
}

/// "Line number N out of range", the complaint of the edit primitives.
pub open spec fn out_of_range(n: nat) -> Complaint {
    complaint(
        "line_number"@,
        n,
        "Line Wrong"@,
        "Line number "@ + decimal(n) + " out of range"@,
    )
}

/// The complaint about inserting an empty block.
pub open spec fn empty_block(n: nat) -> Complaint {
    complaint("new_lines"@, n, "Empty Lines"@, "Cannot insert empty lines collection"@)
}

/// The complaint of `apply_delete_many` about a bad range.
pub open spec fn bad_delete_range(s: nat, e: nat, len: nat) -> Complaint {
    complaint(
        "line_range"@,
        s,
        "Invalid Range"@,
        "Invalid range "@ + decimal(s) + "-"@ + decimal(e) + " for "@ + decimal(len) + " lines"@,
    )
}

/// The complaint of `apply_replace_range` about a bad range.
pub open spec fn bad_replace_range(s: nat, e: nat) -> Complaint {
    complaint(
        "replace_range"@,
        s,
        "Line Wrong"@,
        "Invalid range "@ + decimal(s) + "-"@ + decimal(e),
    )
}

/// Builds `validation_error(field, decimal(n), constraint, Some(suggestion))`.
fn complain(field: &str, n: usize, constraint: &str, suggestion: &String) -> (res: AicedError)
    ensures
        is_complaint(res, complaint(field@, n as nat, constraint@, suggestion@)),
{
    let mut value = String::new();
    push_decimal(&mut value, n);
    assert(value@ =~= decimal(n as nat));
    AicedError::validation_error(field, value.as_str(), constraint, Some(suggestion.as_str()))
}

/// The `out_of_range` error.
fn out_of_range_error(n: usize) -> (res: AicedError)
    ensures
        is_complaint(res, out_of_range(n as nat)),
{
    let mut s = String::new();
    s.append("Line number ");
    push_decimal(&mut s, n);
    s.append(" out of range");
    complain("line_number", n, "Line Wrong", &s)
}

/// The `empty_block` error.
fn empty_block_error(n: usize) -> (res: AicedError)
    ensures
        is_complaint(res, empty_block(n as nat)),
{
    let s = owned("Cannot insert empty lines collection");
    complain("new_lines", n, "Empty Lines", &s)
}

/// A copy of the strings of `v`, in order.
pub fn copy_strings(v: &[String]) -> (res: Vec<String>)
    ensures
        string_views(res@) == string_views(v@),
{
    let mut res: Vec<String> = Vec::new();
    let mut i: usize = 0;
    while i < v.len()
        invariant
            i <= v@.len(),
            string_views(res@) == string_views(v@).take(i as int),
        decreases v@.len() - i,
    {
        let ghost before = res@;
        let c = v[i].clone();
        assert(c@ == v@[i as int]@);
        res.push(c);
        assert(res@ == before.push(c));
        assert(string_views(res@) =~= string_views(before).push(c@));
        i = i + 1;
        assert(string_views(v@).take(i as int) =~= string_views(v@).take(i - 1).push(c@));
        assert(string_views(res@) =~= string_views(v@).take(i as int));
    }
    assert(string_views(v@).take(v@.len() as int) =~= string_views(v@));
    res
}

/// The lines with `block` inserted at index `at`.
pub open spec fn insert_block(lines: Seq<Seq<char>>, at: int, block: Seq<Seq<char>>) -> Seq<
    Seq<char>,
> {
    lines.take(at) + block + lines.skip(at)
}

pub struct FileModifier;

impl FileModifier {
    /// Sets line `line_number` to `new_content`.
    fn apply_replace(lines: &mut Vec<String>, line_number: usize, _old_content: &str, new_content: &str) -> (res:
        AicedResult<()>)
        ensures
            res is Ok <==> 1 <= line_number <= old(lines)@.len(),
            res is Ok ==> string_views(final(lines)@) == string_views(old(lines)@).update(
                line_number - 1,
                new_content@,
            ),
            res matches Err(e) ==> is_complaint(e, out_of_range(line_number as nat))
                && final(lines)@ == old(lines)@,
    {
        if line_number == 0 || line_number > lines.len() {
            return Err(out_of_range_error(line_number));
        }
        let index = line_number - 1;
        let ghost before = string_views(lines@);
        lines.set(index, owned(new_content));
        assert(string_views(lines@) =~= before.update(line_number - 1, new_content@));
        Ok(())
    }

    /// Inserts `new_content` after line `line_number` (0 puts it first).
    fn apply_insert_after(lines: &mut Vec<String>, line_number: usize, new_content: &str) -> (res:
        AicedResult<()>)
        ensures
            res is Ok <==> line_number <= old(lines)@.len(),
            res is Ok ==> string_views(final(lines)@) == string_views(old(lines)@).insert(
                line_number as int,
                new_content@,
            ),
            res matches Err(e) ==> is_complaint(e, out_of_range(line_number as nat))
                && final(lines)@ == old(lines)@,
    {
        if line_number > lines.len() {
            return Err(out_of_range_error(line_number));
        }
        let ghost before = string_views(lines@);
        lines.insert(line_number, owned(new_content));
        assert(string_views(lines@) =~= before.insert(line_number as int, new_content@));
        Ok(())
    }

    /// Inserts `new_content` before line `line_number` (`len + 1` puts it last).
    fn apply_insert_before(lines: &mut Vec<String>, line_number: usize, new_content: &str) -> (res:
        AicedResult<()>)
        ensures
            res is Ok <==> 1 <= line_number <= old(lines)@.len() + 1,
            res is Ok ==> string_views(final(lines)@) == string_views(old(lines)@).insert(
                line_number - 1,
                new_content@,
            ),
            res matches Err(e) ==> is_complaint(e, out_of_range(line_number as nat))
                && final(lines)@ == old(lines)@,
    {
        if line_number == 0 || line_number - 1 > lines.len() {
            return Err(out_of_range_error(line_number));
        }
        let ghost before = string_views(lines@);
        lines.insert(line_number - 1, owned(new_content));
        assert(string_views(lines@) =~= before.insert(line_number - 1, new_content@));
        Ok(())
    }

    /// Inserts the block `new_lines` starting at index `at`, in order.
    fn insert_lines_at(lines: &mut Vec<String>, at: usize, new_lines: &[String])
        requires
            at <= old(lines)@.len(),
        ensures
            string_views(final(lines)@) == insert_block(
                string_views(old(lines)@),
                at as int,
                string_views(new_lines@),
            ),
            final(lines)@.len() == old(lines)@.len() + new_lines@.len(),
    {
        let ghost orig = string_views(lines@);
        let mut i: usize = 0;
        while i < new_lines.len()
            invariant
                i <= new_lines@.len(),
                at <= orig.len(),
                lines@.len() == orig.len() + i,
                string_views(lines@) == insert_block(
                    orig,
                    at as int,
                    string_views(new_lines@).take(i as int),
                ),
            decreases new_lines@.len() - i,
        {
            let ghost before = string_views(lines@);
            let c = new_lines[i].clone();
            assert(c@ == new_lines@[i as int]@);
            let cur_len = lines.len();
            let ghost prev = lines@;
            lines.insert(at + i, c);
            assert(string_views(lines@) =~= before.insert(at + i, c@));
            assert(string_views(new_lines@).take(i + 1) =~= string_views(new_lines@).take(
                i as int,
            ).push(c@));
            i = i + 1;
            assert(string_views(lines@) =~= insert_block(
                orig,
                at as int,
                string_views(new_lines@).take(i as int),
            ));
        }
        assert(string_views(new_lines@).take(new_lines@.len() as int) =~= string_views(
            new_lines@,
        ));
    }

    /// Inserts the block `new_lines` after line `line_number` (at its start
    /// when `line_number` is 0).
    fn apply_insert_many_after(lines: &mut Vec<String>, line_number: usize, new_lines: &[String]) -> (res:
        AicedResult<()>)
        ensures
            res is Ok <==> line_number <= old(lines)@.len() && new_lines@.len() > 0,
            res is Ok ==> string_views(final(lines)@) == insert_block(
                string_views(old(lines)@),
                line_number as int,
                string_views(new_lines@),
            ),
            res matches Err(e) ==> final(lines)@ == old(lines)@ && if line_number > old(
                lines,
            )@.len() {
                is_complaint(e, out_of_range(line_number as nat))
            } else {
                is_complaint(e, empty_block(line_number as nat))
            },
    {
        if line_number > lines.len() {
            return Err(out_of_range_error(line_number));
        }
        if new_lines.len() == 0 {
            return Err(empty_block_error(line_number));
        }
        Self::insert_lines_at(lines, line_number, new_lines);
        Ok(())
    }

    /// Inserts the block `new_lines` before line `line_number`.
    fn apply_insert_many_before(lines: &mut Vec<String>, line_number: usize, new_lines: &[String]) -> (res:
        AicedResult<()>)
        ensures
            res is Ok <==> 1 <= line_number <= old(lines)@.len() + 1 && new_lines@.len() > 0,
            res is Ok ==> string_views(final(lines)@) == insert_block(
                string_views(old(lines)@),
                line_number - 1,
                string_views(new_lines@),
            ),
            res matches Err(e) ==> final(lines)@ == old(lines)@ && if line_number == 0
                || line_number > old(lines)@.len() + 1 {
                is_complaint(e, out_of_range(line_number as nat))
            } else {
                is_complaint(e, empty_block(line_number as nat))
            },
    {
        if line_number == 0 || line_number - 1 > lines.len() {
            return Err(out_of_range_error(line_number));
        }
        if new_lines.len() == 0 {
            return Err(empty_block_error(line_number));
        }
        Self::insert_lines_at(lines, line_number - 1, new_lines);
        Ok(())
    }

    /// Removes line `line_number`.
    fn apply_delete(lines: &mut Vec<String>, line_number: usize) -> (res: AicedResult<()>)
        ensures
            res is Ok <==> 1 <= line_number <= old(lines)@.len(),
            res is Ok ==> string_views(final(lines)@) == string_views(old(lines)@).remove(
                line_number - 1,
            ),
            res matches Err(e) ==> is_complaint(e, out_of_range(line_number as nat))
                && final(lines)@ == old(lines)@,
    {
        if line_number == 0 || line_number > lines.len() {
            return Err(out_of_range_error(line_number));
        }
        let ghost before = string_views(lines@);
        lines.remove(line_number - 1);
        assert(string_views(lines@) =~= before.remove(line_number - 1));
        Ok(())
    }

    /// Removes the lines `start..=end` (1-based).
    fn remove_lines(lines: &mut Vec<String>, start_index: usize, count: usize)
        requires
            start_index + count <= old(lines)@.len(),
        ensures
            string_views(final(lines)@) == string_views(old(lines)@).take(start_index as int)
                + string_views(old(lines)@).skip(start_index + count),
            final(lines)@.len() == old(lines)@.len() - count,
    {
        let ghost orig = string_views(lines@);
        let mut k: usize = 0;
        while k < count
            invariant
                k <= count,
                start_index + count <= orig.len(),
                lines@.len() == orig.len() - k,
                string_views(lines@) == orig.take(start_index as int) + orig.skip(
                    start_index + k,
                ),
            decreases count - k,
        {
            let ghost before = string_views(lines@);
            lines.remove(start_index);
            assert(string_views(lines@) =~= before.remove(start_index as int));
            k = k + 1;
            assert(string_views(lines@) =~= orig.take(start_index as int) + orig.skip(
                start_index + k,
            ));
        }
    }

    /// Removes the lines `start_line..=end_line`.
    fn apply_delete_many(lines: &mut Vec<String>, start_line: usize, end_line: usize) -> (res:
        AicedResult<()>)
        ensures
            res is Ok <==> 1 <= start_line <= end_line <= old(lines)@.len(),
            res is Ok ==> string_views(final(lines)@) == string_views(old(lines)@).take(
                start_line - 1,
            ) + string_views(old(lines)@).skip(end_line as int),
            res matches Err(e) ==> final(lines)@ == old(lines)@ && is_complaint(
                e,
                bad_delete_range(start_line as nat, end_line as nat, old(lines)@.len()),
            ),
    {
        if start_line == 0 || end_line > lines.len() || start_line > end_line {
            let mut s = String::new();
            s.append("Invalid range ");
            push_decimal(&mut s, start_line);
            s.append("-");
            push_decimal(&mut s, end_line);
            s.append(" for ");
            push_decimal(&mut s, lines.len());
            s.append(" lines");
            return Err(complain("line_range", start_line, "Invalid Range", &s));
        }
        Self::remove_lines(lines, start_line - 1, end_line - start_line + 1);
        Ok(())
    }

    /// Replaces the lines `start_line..=end_line` with `new_content`.
    fn apply_replace_range(
        lines: &mut Vec<String>,
        start_line: usize,
        end_line: usize,
        _old_content: &[String],
        new_content: &[String],
    ) -> (res: AicedResult<()>)
        ensures
            res is Ok <==> 1 <= start_line <= end_line <= old(lines)@.len(),
            res is Ok ==> string_views(final(lines)@) == insert_block(
                string_views(old(lines)@).take(start_line - 1) + string_views(old(lines)@).skip(
                    end_line as int,
                ),
                start_line - 1,
                string_views(new_content@),
            ),
            res matches Err(e) ==> final(lines)@ == old(lines)@ && is_complaint(
                e,
                bad_replace_range(start_line as nat, end_line as nat),
            ),
    {
        if start_line == 0 || end_line > lines.len() || start_line > end_line {
            let mut s = String::new();
            s.append("Invalid range ");
            push_decimal(&mut s, start_line);
            s.append("-");
            push_decimal(&mut s, end_line);
            return Err(complain("replace_range", start_line, "Line Wrong", &s));
        }
        Self::remove_lines(lines, start_line - 1, end_line - start_line + 1);
        Self::insert_lines_at(lines, start_line - 1, new_content);
        Ok(())
    }
}

/// The outcome of applying an edit to a sequence of lines.
pub enum Applied {
    /// The edit went through: the new lines and the change in line count.
    Done { lines: Seq<Seq<char>>, offset: int },
    /// The edit was refused.
    Failed { complaint: Complaint },
    /// The computation would panic (an arithmetic overflow or a bad index in `Vec::insert`).
    Panics,
}

/// The lines of a text, as views of strings that hold them.
pub open spec fn text_lines(t: Seq<char>) -> Seq<Seq<char>> {
    lines_of(t)
}

/// `x as i32`, the truncating conversion applied to line counts.
pub open spec fn as_i32(x: int) -> int {
    (x as i32) as int
}

/// The value fits in `i32`.
pub open spec fn fits_i32(x: int) -> bool {
    i32::MIN <= x <= i32::MAX
}

/// What `apply_single_change` does to the lines.
pub open spec fn apply_single_spec(lines: Seq<Seq<char>>, c: LineChange) -> Applied {
    let len = lines.len();
    match c {
        LineChange::Replace { line_number: n, new_content, .. } => if has_char(
            new_content@,
            '\n',
        ) {
            let nl = text_lines(new_content@);
            if 1 <= n <= len {
                if fits_i32(as_i32(nl.len() as int) - 1) {
                    Applied::Done {
                        lines: insert_block(lines.take(n - 1) + lines.skip(n as int), n - 1, nl),
                        offset: as_i32(nl.len() as int) - 1,
                    }
                } else {
                    Applied::Panics
                }
            } else {
                Applied::Failed { complaint: bad_replace_range(n as nat, n as nat) }
            }
        } else if 1 <= n <= len {
            Applied::Done { lines: lines.update(n - 1, new_content@), offset: 0 }
        } else {
            Applied::Failed { complaint: out_of_range(n as nat) }
        },
        LineChange::InsertAfter { line_number: n, new_content } => if n <= len {
            if has_char(new_content@, '\n') {
                let nl = text_lines(new_content@);
                Applied::Done {
                    lines: insert_block(lines, n as int, nl),
                    offset: as_i32(nl.len() as int),
                }
            } else {
                Applied::Done { lines: lines.insert(n as int, new_content@), offset: 1 }
            }
        } else {
            Applied::Failed { complaint: out_of_range(n as nat) }
        },
        LineChange::InsertBefore { line_number: n, new_content } => if 1 <= n <= len + 1 {
            if has_char(new_content@, '\n') {
                let nl = text_lines(new_content@);
                Applied::Done {
                    lines: insert_block(lines, n - 1, nl),
                    offset: as_i32(nl.len() as int),
                }
            } else {
                Applied::Done { lines: lines.insert(n - 1, new_content@), offset: 1 }
            }
        } else {
            Applied::Failed { complaint: out_of_range(n as nat) }
        },
        LineChange::InsertManyAfter { line_number: n, new_lines } => if n > len {
            Applied::Failed { complaint: out_of_range(n as nat) }
        } else if new_lines@.len() == 0 {
            Applied::Failed { complaint: empty_block(n as nat) }
        } else {
            Applied::Done {
                lines: insert_block(lines, n as int, string_views(new_lines@)),
                offset: as_i32(new_lines@.len() as int),
            }
        },
        LineChange::InsertManyBefore { line_number: n, new_lines } => if n == 0 || n > len + 1 {
            Applied::Failed { complaint: out_of_range(n as nat) }
        } else if new_lines@.len() == 0 {
            Applied::Failed { complaint: empty_block(n as nat) }
        } else {
            Applied::Done {
                lines: insert_block(lines, n - 1, string_views(new_lines@)),
                offset: as_i32(new_lines@.len() as int),
            }
        },
        LineChange::Delete { line_number: n } => if 1 <= n <= len {
            Applied::Done { lines: lines.remove(n - 1), offset: -1 }
        } else {
            Applied::Failed { complaint: out_of_range(n as nat) }
        },
        LineChange::DeleteMany { start_line: s, end_line: e } => if e < s || e - s + 1
            > usize::MAX {
            Applied::Panics
        } else if 1 <= s && e <= len {
            if as_i32(e - s + 1) == i32::MIN {
                Applied::Panics
            } else {
                Applied::Done {
                    lines: lines.take(s - 1) + lines.skip(e as int),
                    offset: -as_i32(e - s + 1),
                }
            }
        } else {
            Applied::Failed { complaint: bad_delete_range(s as nat, e as nat, len) }
        },
        LineChange::ReplaceRange { start_line: s, end_line: e, new_content, .. } => if e < s
            || e - s + 1 > usize::MAX {
            Applied::Panics
        } else if 1 <= s && e <= len {
            let offset = as_i32(new_content@.len() as int) - as_i32(e - s + 1);
            if fits_i32(offset) {
                Applied::Done {
                    lines: insert_block(
                        lines.take(s - 1) + lines.skip(e as int),
                        s - 1,
                        string_views(new_content@),
                    ),
                    offset,
                }
            } else {
                Applied::Panics
            }
        } else {
            Applied::Failed { complaint: bad_replace_range(s as nat, e as nat) }
        },
    }
}

/// `apply_offset`: a line number moved by `offset`, never below 1;
/// `None` when the addition overflows.
pub open spec fn offset_line(n: usize, offset: int) -> Option<usize> {
    if offset == i32::MIN {
        None
    } else if offset < 0 {
        if -offset >= n {
            Some(1usize)
        } else {
            Some((n + offset) as usize)
        }
    } else if n + offset <= usize::MAX {
        Some((n + offset) as usize)
    } else {
        None
    }
}

/// `adjust_change_line_numbers`: the change with its line numbers moved by
/// `offset`, or `None` when that overflows.
pub open spec fn adjusted(c: LineChange, offset: int) -> Option<LineChange> {
    match c {
        LineChange::Replace { line_number, old_content, new_content } => match offset_line(
            line_number,
            offset,
        ) {
            Some(n) => Some(LineChange::Replace { line_number: n, old_content, new_content }),
            None => None,
        },
        LineChange::InsertAfter { line_number, new_content } => match offset_line(
            line_number,
            offset,
        ) {
            Some(n) => Some(LineChange::InsertAfter { line_number: n, new_content }),
            None => None,
        },
        LineChange::InsertBefore { line_number, new_content } => match offset_line(
            line_number,
            offset,
        ) {
            Some(n) => Some(LineChange::InsertBefore { line_number: n, new_content }),
            None => None,
        },
        LineChange::InsertManyAfter { line_number, new_lines } => match offset_line(
            line_number,
            offset,
        ) {
            Some(n) => Some(LineChange::InsertManyAfter { line_number: n, new_lines }),
            None => None,
        },
        LineChange::InsertManyBefore { line_number, new_lines } => match offset_line(
            line_number,
            offset,
        ) {
            Some(n) => Some(LineChange::InsertManyBefore { line_number: n, new_lines }),
            None => None,
        },
        LineChange::Delete { line_number } => match offset_line(line_number, offset) {
            Some(n) => Some(LineChange::Delete { line_number: n }),
            None => None,
        },
        LineChange::DeleteMany { start_line, end_line } => match (
            offset_line(start_line, offset),
            offset_line(end_line, offset),
        ) {
            (Some(s), Some(e)) => Some(LineChange::DeleteMany { start_line: s, end_line: e }),
            _ => None,
        },
        LineChange::ReplaceRange { start_line, end_line, old_content, new_content } => match (
            offset_line(start_line, offset),
            offset_line(end_line, offset),
        ) {
            (Some(s), Some(e)) => Some(
                LineChange::ReplaceRange { start_line: s, end_line: e, old_content, new_content },
            ),
            _ => None,
        },
    }
}

/// The line a change is sorted by: its line, or the start of its range.
pub open spec fn key(c: LineChange) -> usize {
    match c {
        LineChange::Replace { line_number, .. } => line_number,
        LineChange::InsertAfter { line_number, .. } => line_number,
        LineChange::InsertBefore { line_number, .. } => line_number,
        LineChange::InsertManyAfter { line_number, .. } => line_number,
        LineChange::InsertManyBefore { line_number, .. } => line_number,
        LineChange::Delete { line_number } => line_number,
        LineChange::DeleteMany { start_line, .. } => start_line,
        LineChange::ReplaceRange { start_line, .. } => start_line,
    }
}

impl FileModifier {
    /// The line a change is sorted by.
    fn get_change_line_number(change: &LineChange) -> (res: usize)
        ensures
            res == key(*change),
    {
        match change {
            LineChange::Replace { line_number, .. } => *line_number,
            LineChange::InsertAfter { line_number, .. } => *line_number,
            LineChange::InsertBefore { line_number, .. } => *line_number,
            LineChange::InsertManyAfter { line_number, .. } => *line_number,
            LineChange::InsertManyBefore { line_number, .. } => *line_number,
            LineChange::Delete { line_number } => *line_number,
            LineChange::DeleteMany { start_line, .. } => *start_line,
            LineChange::ReplaceRange { start_line, .. } => *start_line,
        }
    }

    /// A line number moved by `offset`, never below 1.
    fn apply_offset(line_number: usize, offset: i32) -> (res: usize)
        requires
            offset_line(line_number, offset as int) is Some,
        ensures
            Some(res) == offset_line(line_number, offset as int),
    {
        if offset < 0 {
            let abs_offset = (-offset) as usize;
            if abs_offset >= line_number {
                1
            } else {
                line_number - abs_offset
            }
        } else {
            line_number + offset as usize
        }
    }

    /// The change with its line numbers moved by `offset`.
    fn adjust_change_line_numbers(change: &LineChange, offset: i32) -> (res: LineChange)
        requires
            adjusted(*change, offset as int) is Some,
        ensures
            same_change(res, adjusted(*change, offset as int)->0),
    {
        match change {
            LineChange::Replace { line_number, old_content, new_content } => LineChange::Replace {
                line_number: Self::apply_offset(*line_number, offset),
                old_content: old_content.clone(),
                new_content: new_content.clone(),
            },
            LineChange::InsertAfter { line_number, new_content } => LineChange::InsertAfter {
                line_number: Self::apply_offset(*line_number, offset),
                new_content: new_content.clone(),
            },
            LineChange::InsertBefore { line_number, new_content } => LineChange::InsertBefore {
                line_number: Self::apply_offset(*line_number, offset),
                new_content: new_content.clone(),
            },
            LineChange::InsertManyAfter { line_number, new_lines } => LineChange::InsertManyAfter {
                line_number: Self::apply_offset(*line_number, offset),
                new_lines: copy_strings(new_lines.as_slice()),
            },
            LineChange::InsertManyBefore { line_number, new_lines } =>
                LineChange::InsertManyBefore {
                line_number: Self::apply_offset(*line_number, offset),
                new_lines: copy_strings(new_lines.as_slice()),
            },
            LineChange::Delete { line_number } => LineChange::Delete {
                line_number: Self::apply_offset(*line_number, offset),
            },
            LineChange::DeleteMany { start_line, end_line } => LineChange::DeleteMany {
                start_line: Self::apply_offset(*start_line, offset),
                end_line: Self::apply_offset(*end_line, offset),
            },
            LineChange::ReplaceRange { start_line, end_line, old_content, new_content } =>
                LineChange::ReplaceRange {
                start_line: Self::apply_offset(*start_line, offset),
                end_line: Self::apply_offset(*end_line, offset),
                old_content: copy_strings(old_content.as_slice()),
                new_content: copy_strings(new_content.as_slice()),
            },
        }
    }

    /// The lines of a text, as owned strings.
    fn text_to_lines(t: &str) -> (res: Vec<String>)
        ensures
            string_views(res@) == lines_of(t@),
    {
        let ls = lines_of_str(t);
        let mut res: Vec<String> = Vec::new();
        let mut i: usize = 0;
        while i < ls.len()
            invariant
                i <= ls@.len(),
                crate::text::views(ls@) == lines_of(t@),
                string_views(res@) == lines_of(t@).take(i as int),
            decreases ls@.len() - i,
        {
            let s = from_chars(ls[i].as_slice());
            let ghost before = res@;
            res.push(s);
            assert(string_views(res@) =~= string_views(before).push(s@));
            i = i + 1;
            assert(lines_of(t@).take(i as int) =~= lines_of(t@).take(i - 1).push(s@));
        }
        assert(lines_of(t@).take(ls@.len() as int) =~= lines_of(t@));
        res
    }

    /// Applies one change to the lines and returns how much the line count changed.
    fn apply_single_change(lines: &mut Vec<String>, change: &LineChange) -> (res: AicedResult<i32>)
        requires
            !(apply_single_spec(string_views(old(lines)@), *change) is Panics),
        ensures
            match apply_single_spec(string_views(old(lines)@), *change) {
                Applied::Done { lines: l, offset } => res == Ok::<i32, AicedError>(offset as i32)
                    && string_views(final(lines)@) == l,
                Applied::Failed { complaint } => res matches Err(e) && is_complaint(e, complaint)
                    && final(lines)@ == old(lines)@,
                Applied::Panics => false,
            },
    {
        match change {
            LineChange::Replace { line_number, old_content, new_content } => {
                if str_has_char(new_content.as_str(), '\n') {
                    let new_lines = Self::text_to_lines(new_content.as_str());
                    let old_lines = vec![old_content.clone()];
                    Self::apply_replace_range(
                        lines,
                        *line_number,
                        *line_number,
                        old_lines.as_slice(),
                        new_lines.as_slice(),
                    )?;
                    Ok(new_lines.len() as i32 - 1)
                } else {
                    Self::apply_replace(lines, *line_number, old_content.as_str(), new_content.as_str())?;
                    Ok(0)
                }
            },
            LineChange::InsertAfter { line_number, new_content } => {
                if str_has_char(new_content.as_str(), '\n') {
                    let new_lines = Self::text_to_lines(new_content.as_str());
                    if *line_number > lines.len() {
                        return Err(out_of_range_error(*line_number));
                    }
                    Self::insert_lines_at(lines, *line_number, new_lines.as_slice());
                    Ok(new_lines.len() as i32)
                } else {
                    Self::apply_insert_after(lines, *line_number, new_content.as_str())?;
                    Ok(1)
                }
            },
            LineChange::InsertBefore { line_number, new_content } => {
                if str_has_char(new_content.as_str(), '\n') {
                    let new_lines = Self::text_to_lines(new_content.as_str());
                    if *line_number == 0 || *line_number - 1 > lines.len() {
                        return Err(out_of_range_error(*line_number));
                    }
                    Self::insert_lines_at(lines, *line_number - 1, new_lines.as_slice());
                    Ok(new_lines.len() as i32)
                } else {
                    Self::apply_insert_before(lines, *line_number, new_content.as_str())?;
                    Ok(1)
                }
            },
            LineChange::InsertManyAfter { line_number, new_lines } => {
                Self::apply_insert_many_after(lines, *line_number, new_lines.as_slice())?;
                Ok(new_lines.len() as i32)
            },
            LineChange::InsertManyBefore { line_number, new_lines } => {
                Self::apply_insert_many_before(lines, *line_number, new_lines.as_slice())?;
                Ok(new_lines.len() as i32)
            },
            LineChange::Delete { line_number } => {
                Self::apply_delete(lines, *line_number)?;
                Ok(-1)
            },
            LineChange::DeleteMany { start_line, end_line } => {
                let deleted_count = end_line - start_line + 1;
                Self::apply_delete_many(lines, *start_line, *end_line)?;
                Ok(-(deleted_count as i32))
            },
            LineChange::ReplaceRange { start_line, end_line, old_content, new_content } => {
                let old_line_count = end_line - start_line + 1;
                let new_line_count = new_content.len();
                Self::apply_replace_range(
                    lines,
                    *start_line,
                    *end_line,
                    old_content.as_slice(),
                    new_content.as_slice(),
                )?;
                Ok(new_line_count as i32 - old_line_count as i32)
            },
        }
    }
}

/// "Line number N is out of range (1-LEN)".
pub open spec fn range_complaint(n: nat, len: nat) -> Complaint {
    complaint(
        "line_number"@,
        n,
        "Line Wrong"@,
        "Line number "@ + decimal(n) + " is out of range (1-"@ + decimal(len) + ")"@,
    )
}

/// The text that shows an expected and an actual line.
pub open spec fn expected_actual(expected: Seq<char>, actual: Seq<char>) -> Seq<char> {
    "\nExpected: '"@ + expected + "'\nActual: '"@ + actual + "'"@
}

/// The first index `k >= i` at which the block `old`, placed at line `s`,
/// leaves the file or differs from it (ignoring surrounding white space).
pub open spec fn first_block_mismatch(lines: Seq<Seq<char>>, s: int, old: Seq<Seq<char>>, i: int) -> int
    decreases old.len() - i,
{
    if i < 0 || i >= old.len() {
        old.len() as int
    } else if s - 1 + i >= lines.len() || trim(lines[s - 1 + i]) != trim(old[i]) {
        i
    } else {
        first_block_mismatch(lines, s, old, i + 1)
    }
}

/// Why a change does not fit the lines, as `validate_single_change` reports it.
pub open spec fn check_change(lines: Seq<Seq<char>>, c: LineChange) -> Option<Complaint> {
    let len = lines.len();
    match c {
        LineChange::Replace { line_number: n, old_content, .. } => if n == 0 || n > len {
            Some(range_complaint(n as nat, len))
        } else if trim(lines[n - 1]) != trim(old_content@) {
            Some(
                complaint(
                    "line_content"@,
                    n as nat,
                    "Line Content mismatch"@,
                    "Line "@ + decimal(n as nat) + " content mismatch."@ + expected_actual(
                        trim(old_content@),
                        trim(lines[n - 1]),
                    ),
                ),
            )
        } else {
            None
        },
        LineChange::InsertAfter { line_number: n, .. } => if n > len {
            Some(range_complaint(n as nat, len))
        } else {
            None
        },
        LineChange::InsertBefore { line_number: n, .. } => if n == 0 || n > len + 1 {
            Some(range_complaint(n as nat, len))
        } else {
            None
        },
        LineChange::InsertManyAfter { line_number: n, new_lines } => if n > len {
            Some(range_complaint(n as nat, len))
        } else if new_lines@.len() == 0 {
            Some(empty_block(n as nat))
        } else {
            None
        },
        LineChange::InsertManyBefore { line_number: n, new_lines } => if n == 0 || n > len + 1 {
            Some(range_complaint(n as nat, len))
        } else if new_lines@.len() == 0 {
            Some(empty_block(n as nat))
        } else {
            None
        },
        LineChange::Delete { line_number: n } => if n == 0 || n > len {
            Some(range_complaint(n as nat, len))
        } else {
            None
        },
        LineChange::DeleteMany { start_line: s, end_line: e } => if s == 0 || e > len || s > e {
            Some(bad_delete_range(s as nat, e as nat, len))
        } else {
            None
        },
        LineChange::ReplaceRange { start_line: s, end_line: e, old_content, .. } => if s == 0 || e
            > len || s > e {
            Some(
                complaint(
                    "line_number"@,
                    s as nat,
                    "Line Wrong"@,
                    "Invalid range "@ + decimal(s as nat) + "-"@ + decimal(e as nat) + " for "@
                        + decimal(len) + " lines"@,
                ),
            )
        } else {
            let old = string_views(old_content@);
            let k = first_block_mismatch(lines, s as int, old, 0);
            if k >= old.len() {
                None
            } else if s - 1 + k >= len {
                Some(
                    complaint(
                        "line_number"@,
                        s as nat,
                        "Line Wrong"@,
                        "Range extends beyond file length"@,
                    ),
                )
            } else {
                Some(
                    complaint(
                        "line_number"@,
                        s as nat,
                        "Line Wrong"@,
                        "Line "@ + decimal((s + k) as nat) + " in range mismatch."@
                            + expected_actual(trim(old[k]), trim(lines[s - 1 + k])),
                    ),
                )
            }
        },
    }
}

/// The trimmed characters of a string.
fn trimmed(s: &String) -> (res: Vec<char>)
    ensures
        res@ == trim(s@),
{
    let cs = to_chars(s.as_str());
    trim_chars(cs.as_slice())
}

/// Appends the expected and actual lines in the form of `expected_actual`.
fn push_expected_actual(out: &mut String, expected: &[char], actual: &[char])
    ensures
        final(out)@ == old(out)@ + expected_actual(expected@, actual@),
{
    out.append("\nExpected: '");
    push_chars(out, expected);
    out.append("'\nActual: '");
    push_chars(out, actual);
    out.append("'");
    assert(final(out)@ =~= old(out)@ + expected_actual(expected@, actual@));
}

/// The `range_complaint` error.
fn range_error(n: usize, len: usize) -> (res: AicedError)
    ensures
        is_complaint(res, range_complaint(n as nat, len as nat)),
{
    let mut s = String::new();
    s.append("Line number ");
    push_decimal(&mut s, n);
    s.append(" is out of range (1-");
    push_decimal(&mut s, len);
    s.append(")");
    complain("line_number", n, "Line Wrong", &s)
}

impl FileModifier {
    /// Checks one change against the lines of the file; on success returns a copy of it.
    fn validate_single_change(change: &LineChange, lines: &[String]) -> (res: AicedResult<LineChange>)
        ensures
            match check_change(string_views(lines@), *change) {
                None => res matches Ok(c) && same_change(c, *change),
                Some(complaint) => res matches Err(e) && is_complaint(e, complaint),
            },
    {
        let len = lines.len();
        match change {
            LineChange::Replace { line_number, old_content, .. } => {
                if *line_number == 0 || *line_number > len {
                    return Err(range_error(*line_number, len));
                }
                let actual = trimmed(&lines[*line_number - 1]);
                let expected = trimmed(old_content);
                if !chars_eq(actual.as_slice(), expected.as_slice()) {
                    let mut s = String::new();
                    s.append("Line ");
                    push_decimal(&mut s, *line_number);
                    s.append(" content mismatch.");
                    push_expected_actual(&mut s, expected.as_slice(), actual.as_slice());
                    return Err(complain("line_content", *line_number, "Line Content mismatch", &s));
                }
            },
            LineChange::InsertAfter { line_number, .. } => {
                if *line_number > len {
                    return Err(range_error(*line_number, len));
                }
            },
            LineChange::InsertBefore { line_number, .. } => {
                if *line_number == 0 || *line_number - 1 > len {
                    return Err(range_error(*line_number, len));
                }
            },
            LineChange::InsertManyAfter { line_number, new_lines } => {
                if *line_number > len {
                    return Err(range_error(*line_number, len));
                }
                if new_lines.len() == 0 {
                    return Err(empty_block_error(*line_number));
                }
            },
            LineChange::InsertManyBefore { line_number, new_lines } => {
                if *line_number == 0 || *line_number - 1 > len {
                    return Err(range_error(*line_number, len));
                }
                if new_lines.len() == 0 {
                    return Err(empty_block_error(*line_number));
                }
            },
            LineChange::Delete { line_number } => {
                if *line_number == 0 || *line_number > len {
                    return Err(range_error(*line_number, len));
                }
            },
            LineChange::DeleteMany { start_line, end_line } => {
                if *start_line == 0 || *end_line > len || start_line > end_line {
                    let mut s = String::new();
                    s.append("Invalid range ");
                    push_decimal(&mut s, *start_line);
                    s.append("-");
                    push_decimal(&mut s, *end_line);
                    s.append(" for ");
                    push_decimal(&mut s, len);
                    s.append(" lines");
                    return Err(complain("line_range", *start_line, "Invalid Range", &s));
                }
            },
            LineChange::ReplaceRange { start_line, end_line, old_content, .. } => {
                if *start_line == 0 || *end_line > len || start_line > end_line {
                    let mut s = String::new();
                    s.append("Invalid range ");
                    push_decimal(&mut s, *start_line);
                    s.append("-");
                    push_decimal(&mut s, *end_line);
                    s.append(" for ");
                    push_decimal(&mut s, len);
                    s.append(" lines");
                    return Err(complain("line_number", *start_line, "Line Wrong", &s));
                }
                let ghost old = string_views(old_content@);
                let mut i: usize = 0;
                #[verifier::loop_isolation(false)]
                while i < old_content.len()
                    invariant
                        i <= old_content@.len(),
                        1 <= *start_line <= *end_line <= len == lines@.len(),
                        old == string_views(old_content@),
                        first_block_mismatch(string_views(lines@), *start_line as int, old, 0)
                            == first_block_mismatch(
                            string_views(lines@),
                            *start_line as int,
                            old,
                            i as int,
                        ),
                    decreases old_content@.len() - i,
                {
                    if i >= len - (*start_line - 1) {
                        let s = owned("Range extends beyond file length");
                        return Err(complain("line_number", *start_line, "Line Wrong", &s));
                    }
                    let line_index = (*start_line - 1) + i;
                    let actual = trimmed(&lines[line_index]);
                    let expected = trimmed(&old_content[i]);
                    if !chars_eq(actual.as_slice(), expected.as_slice()) {
                        let mut s = String::new();
                        s.append("Line ");
                        push_decimal(&mut s, line_index + 1);
                        s.append(" in range mismatch.");
                        push_expected_actual(&mut s, expected.as_slice(), actual.as_slice());
                        assert(s@ =~= "Line "@ + decimal((*start_line + i) as nat)
                            + " in range mismatch."@ + expected_actual(
                            trim(old[i as int]),
                            trim(string_views(lines@)[*start_line - 1 + i]),
                        ));
                        return Err(complain("line_number", *start_line, "Line Wrong", &s));
                    }
                    i = i + 1;
                }
            },
        }
        Ok(change.duplicate())
    }

    /// Checks every change against the lines, in order; the first failure is
    /// reported by its index.
    fn validate_changes(changes: &[LineChange], lines: &[String]) -> (res: AicedResult<Vec<LineChange>>)
        ensures
            match first_invalid(string_views(lines@), changes@, 0) {
                None => res matches Ok(v) && v@.len() == changes@.len() && forall|k: int|
                    0 <= k < changes@.len() ==> #[trigger] same_change(v@[k], changes@[k]),
                Some(i) => res matches Err(e) && is_complaint(e, change_failed(i as nat)),
            },
    {
        let mut validated: Vec<LineChange> = Vec::new();
        let mut i: usize = 0;
        while i < changes.len()
            invariant
                i <= changes@.len(),
                validated@.len() == i,
                forall|k: int| 0 <= k < i ==> #[trigger] same_change(validated@[k], changes@[k]),
                first_invalid(string_views(lines@), changes@, 0) == first_invalid(
                    string_views(lines@),
                    changes@,
                    i as int,
                ),
            decreases changes@.len() - i,
        {
            match Self::validate_single_change(&changes[i], lines) {
                Ok(v) => {
                    validated.push(v);
                },
                Err(_) => {
                    let mut s = String::new();
                    s.append("Change ");
                    push_decimal(&mut s, i + 1);
                    s.append(" validation failed");
                    return Err(complain("line_number", i, "Line Wrong", &s));
                },
            }
            i = i + 1;
        }
        Ok(validated)
    }
}

/// The complaint that change `i` (counted from 0) failed validation.
pub open spec fn change_failed(i: nat) -> Complaint {
    complaint(
        "line_number"@,
        i,
        "Line Wrong"@,
        "Change "@ + decimal(i + 1) + " validation failed"@,
    )
}

/// The index of the first change at or after `i` that does not fit the lines.
pub open spec fn first_invalid(lines: Seq<Seq<char>>, cs: Seq<LineChange>, i: int) -> Option<int>
    decreases cs.len() - i,
{
    if i < 0 || i >= cs.len() {
        None
    } else if check_change(lines, cs[i]) is Some {
        Some(i)
    } else {
        first_invalid(lines, cs, i + 1)
    }
}

/// Where line-key `k` goes in the sorted prefix `order`: after every entry
/// with a key at most `k` (the first entry at or after `j` with a greater key).
pub open spec fn insert_pos(cs: Seq<LineChange>, order: Seq<usize>, k: usize, j: int) -> int
    decreases order.len() - j,
{
    if j < 0 || j >= order.len() {
        order.len() as int
    } else if key(cs[order[j] as int]) > k {
        j
    } else {
        insert_pos(cs, order, k, j + 1)
    }
}

/// The indices `0..n` of `cs` in stable order of their line keys (insertion sort).
pub open spec fn sorted_order(cs: Seq<LineChange>, n: int) -> Seq<usize>
    decreases n,
{
    if n <= 0 {
        Seq::empty()
    } else {
        let prev = sorted_order(cs, n - 1);
        prev.insert(insert_pos(cs, prev, key(cs[n - 1]), 0), (n - 1) as usize)
    }
}

/// The changes in stable order of their line keys (`sort_by_key`).
pub open spec fn sort_by_line(cs: Seq<LineChange>) -> Seq<LineChange> {
    sorted_order(cs, cs.len() as int).map_values(|i: usize| cs[i as int])
}

/// Applies the changes in order, each moved by the line offset of those before it.
pub open spec fn apply_from(lines: Seq<Seq<char>>, cs: Seq<LineChange>, offset: int) -> Applied
    decreases cs.len(),
{
    if cs.len() == 0 {
        Applied::Done { lines, offset }
    } else {
        match adjusted(cs[0], offset) {
            None => Applied::Panics,
            Some(c) => match apply_single_spec(lines, c) {
                Applied::Done { lines: l2, offset: o } => if fits_i32(offset + o) {
                    apply_from(l2, cs.drop_first(), offset + o)
                } else {
                    Applied::Panics
                },
                Applied::Failed { complaint } => Applied::Failed { complaint },
                Applied::Panics => Applied::Panics,
            },
        }
    }
}

/// The lines after applying the changes in line order, as `apply_file_modifications` does.
pub open spec fn apply_sorted(lines: Seq<Seq<char>>, cs: Seq<LineChange>) -> Applied {
    apply_from(lines, sort_by_line(cs), 0)
}

/// `insert_pos` lies within the order.
pub proof fn lemma_insert_pos_bounds(cs: Seq<LineChange>, order: Seq<usize>, k: usize, j: int)
    requires
        0 <= j <= order.len(),
    ensures
        j <= insert_pos(cs, order, k, j) <= order.len(),
    decreases order.len() - j,
{
    if j < order.len() && !(key(cs[order[j] as int]) > k) {
        lemma_insert_pos_bounds(cs, order, k, j + 1);
    }
}

/// The sorted order holds `n` indices, each below `n`.
pub proof fn lemma_sorted_order_bounds(cs: Seq<LineChange>, n: int)
    requires
        0 <= n,
    ensures
        sorted_order(cs, n).len() == n,
        forall|i: int| 0 <= i < n ==> #[trigger] sorted_order(cs, n)[i] < n,
    decreases n,
{
    if n > 0 {
        lemma_sorted_order_bounds(cs, n - 1);
        let prev = sorted_order(cs, n - 1);
        lemma_insert_pos_bounds(cs, prev, key(cs[n - 1]), 0);
        let p = insert_pos(cs, prev, key(cs[n - 1]), 0);
        assert forall|i: int| 0 <= i < n implies #[trigger] sorted_order(cs, n)[i] < n by {
            if i < p {
                assert(sorted_order(cs, n)[i] == prev[i]);
            } else if i > p {
                assert(sorted_order(cs, n)[i] == prev[i - 1]);
            }
        }
    }
}

/// Applying a change that is the same edit as another gives the same outcome.
pub proof fn lemma_same_change_applies_alike(lines: Seq<Seq<char>>, a: LineChange, b: LineChange)
    requires
        same_change(a, b),
    ensures
        apply_single_spec(lines, a) == apply_single_spec(lines, b),
        key(a) == key(b),
        forall|off: int| #[trigger] adjusted(a, off) is Some <==> adjusted(b, off) is Some,
        forall|off: int|
            adjusted(a, off) is Some ==> #[trigger] same_change(
                adjusted(a, off)->0,
                adjusted(b, off)->0,
            ),
        check_change(lines, a) == check_change(lines, b),
{
    match (a, b) {
        (
            LineChange::ReplaceRange { old_content: o1, new_content: c1, .. },
            LineChange::ReplaceRange { old_content: o2, new_content: c2, .. },
        ) => {
            assert(string_views(o1@).len() == o1@.len());
            assert(string_views(o2@).len() == o2@.len());
            assert(string_views(c1@).len() == c1@.len());
            assert(string_views(c2@).len() == c2@.len());
        },
        (
            LineChange::InsertManyAfter { new_lines: l1, .. },
            LineChange::InsertManyAfter { new_lines: l2, .. },
        ) => {
            assert(string_views(l1@).len() == l1@.len());
            assert(string_views(l2@).len() == l2@.len());
        },
        (
            LineChange::InsertManyBefore { new_lines: l1, .. },
            LineChange::InsertManyBefore { new_lines: l2, .. },
        ) => {
            assert(string_views(l1@).len() == l1@.len());
            assert(string_views(l2@).len() == l2@.len());
        },
        _ => {},
    }
}

impl FileModifier {
    /// The indices of the changes in stable order of their line keys.
    pub(crate) fn sort_indices(changes: &[LineChange]) -> (res: Vec<usize>)
        ensures
            res@ == sorted_order(changes@, changes@.len() as int),
    {
        let mut order: Vec<usize> = Vec::new();
        let mut i: usize = 0;
        while i < changes.len()
            invariant
                i <= changes@.len(),
                order@ == sorted_order(changes@, i as int),
            decreases changes@.len() - i,
        {
            proof {
                lemma_sorted_order_bounds(changes@, i as int);
            }
            let k = Self::get_change_line_number(&changes[i]);
            let mut j: usize = 0;
            while j < order.len() && !(Self::get_change_line_number(&changes[order[j]]) > k)
                invariant
                    j <= order@.len(),
                    order@ == sorted_order(changes@, i as int),
                    i < changes@.len(),
                    k == key(changes@[i as int]),
                    forall|m: int| 0 <= m < order@.len() ==> #[trigger] order@[m] < i,
                    insert_pos(changes@, order@, k, 0) == insert_pos(
                        changes@,
                        order@,
                        k,
                        j as int,
                    ),
                decreases order@.len() - j,
            {
                j = j + 1;
            }
            order.insert(j, i);
            i = i + 1;
        }
        order
    }

    /// Applies the changes to the lines in stable order of their line keys,
    /// each moved by the line offset of the changes before it.
    fn apply_in_line_order(lines: &mut Vec<String>, changes: &[LineChange]) -> (res: AicedResult<()>)
        requires
            !(apply_sorted(string_views(old(lines)@), changes@) is Panics),
        ensures
            match apply_sorted(string_views(old(lines)@), changes@) {
                Applied::Done { lines: l, .. } => res is Ok && string_views(final(lines)@) == l,
                Applied::Failed { complaint } => res matches Err(e) && is_complaint(e, complaint),
                Applied::Panics => false,
            },
    {
        let order = Self::sort_indices(changes);
        proof {
            lemma_sorted_order_bounds(changes@, changes@.len() as int);
        }
        let ghost sorted = sort_by_line(changes@);
        let ghost target = apply_sorted(string_views(lines@), changes@);
        let mut cumulative_offset: i32 = 0;
        let mut k: usize = 0;
        assert(sorted.skip(0) =~= sorted);
        while k < order.len()
            invariant
                k <= order@.len() == changes@.len(),
                sorted == sort_by_line(changes@),
                sorted.len() == order@.len(),
                forall|m: int| 0 <= m < order@.len() ==> #[trigger] order@[m] < changes@.len(),
                forall|m: int| 0 <= m < order@.len() ==> sorted[m] == changes@[#[trigger] order@[m] as int],
                target == apply_from(string_views(lines@), sorted.skip(k as int), cumulative_offset as int),
                target == apply_sorted(string_views(old(lines)@), changes@),
                !(target is Panics),
            decreases order@.len() - k,
        {
            let change = &changes[order[k]];
            assert(sorted.skip(k as int)[0] == *change);
            assert(sorted.skip(k as int).drop_first() =~= sorted.skip(k + 1));
            let adjusted_change = Self::adjust_change_line_numbers(change, cumulative_offset);
            proof {
                lemma_same_change_applies_alike(
                    string_views(lines@),
                    adjusted_change,
                    adjusted(*change, cumulative_offset as int)->0,
                );
            }
            let line_offset = Self::apply_single_change(lines, &adjusted_change)?;
            cumulative_offset = cumulative_offset + line_offset;
            k = k + 1;
        }
        assert(sorted.skip(k as int) =~= Seq::<LineChange>::empty());
        Ok(())
    }
}

/// The outcome of checking changes without applying them.
pub enum Checked {
    Passed,
    Failed { complaint: Complaint },
    Panics,
}

/// "After applying previous changes, change I would ..." complaints of the dry run.
pub open spec fn sim_complaint(field: Seq<char>, n: nat, constraint: Seq<char>, what: Seq<char>, i: nat, count: nat) -> Complaint {
    complaint(
        field,
        n,
        constraint,
        "After applying previous changes, change "@ + decimal(i + 1) + what + " (file has "@
            + decimal(count) + " lines)"@,
    )
}

/// Why the `i`-th change (counted from 0), already moved, does not fit a file of `count` lines.
pub open spec fn sim_check(count: nat, c: LineChange, i: nat) -> Option<Complaint> {
    match c {
        LineChange::Replace { line_number: n, .. } => if n == 0 || n > count {
            Some(sim_complaint("line_number"@, n as nat, "Line Wrong"@, " would reference invalid line "@ + decimal(n as nat), i, count))
        } else {
            None
        },
        LineChange::Delete { line_number: n } => if n == 0 || n > count {
            Some(sim_complaint("line_number"@, n as nat, "Line Wrong"@, " would reference invalid line "@ + decimal(n as nat), i, count))
        } else {
            None
        },
        LineChange::InsertAfter { line_number: n, .. } => if n > count {
            Some(sim_complaint("line_number"@, n as nat, "Line Wrong"@, " would reference invalid line "@ + decimal(n as nat), i, count))
        } else {
            None
        },
        LineChange::InsertManyAfter { line_number: n, .. } => if n > count {
            Some(sim_complaint("line_number"@, n as nat, "Line Wrong"@, " would reference invalid line "@ + decimal(n as nat), i, count))
        } else {
            None
        },
        LineChange::InsertBefore { line_number: n, .. } => if n == 0 || n > count + 1 {
            Some(sim_complaint("line_number"@, n as nat, "Line Wrong"@, " would insert before invalid line "@ + decimal(n as nat), i, count))
        } else {
            None
        },
        LineChange::InsertManyBefore { line_number: n, .. } => if n == 0 || n > count + 1 {
            Some(sim_complaint("line_number"@, n as nat, "Line Wrong"@, " would insert before invalid line "@ + decimal(n as nat), i, count))
        } else {
            None
        },
        LineChange::DeleteMany { start_line: s, end_line: e } => if s == 0 || e > count || s > e {
            Some(sim_complaint("line_range"@, s as nat, "Invalid Range"@, " would use invalid range "@ + decimal(s as nat) + "-"@ + decimal(e as nat), i, count))
        } else {
            None
        },
        LineChange::ReplaceRange { start_line: s, end_line: e, .. } => if s == 0 || e > count || s > e {
            Some(sim_complaint("line_number"@, s as nat, "Line Wrong"@, " would use invalid range "@ + decimal(s as nat) + "-"@ + decimal(e as nat), i, count))
        } else {
            None
        },
    }
}

/// The line offset the dry run expects of a change that fits; `None` when computing it panics.
pub open spec fn sim_offset(c: LineChange) -> Option<int> {
    match c {
        LineChange::Replace { new_content, .. } => if has_char(new_content@, '\n') {
            let o = as_i32(lines_of(new_content@).len() as int) - 1;
            if fits_i32(o) { Some(o) } else { None }
        } else {
            Some(0)
        },
        LineChange::InsertAfter { new_content, .. } => if has_char(new_content@, '\n') {
            Some(as_i32(lines_of(new_content@).len() as int))
        } else {
            Some(1)
        },
        LineChange::InsertBefore { new_content, .. } => if has_char(new_content@, '\n') {
            Some(as_i32(lines_of(new_content@).len() as int))
        } else {
            Some(1)
        },
        LineChange::InsertManyAfter { new_lines, .. } => Some(as_i32(new_lines@.len() as int)),
        LineChange::InsertManyBefore { new_lines, .. } => Some(as_i32(new_lines@.len() as int)),
        LineChange::Delete { .. } => Some(-1),
        LineChange::DeleteMany { start_line: s, end_line: e } => {
            let d = as_i32(e - s + 1);
            if d == i32::MIN { None } else { Some(-d) }
        },
        LineChange::ReplaceRange { start_line: s, end_line: e, new_content, .. } => {
            let o = as_i32(new_content@.len() as int) - as_i32(e - s + 1);
            if fits_i32(o) { Some(o) } else { None }
        },
    }
}

/// The dry run over the changes from the `i`-th on, with `count` lines and the offset so far.
pub open spec fn simulate_from(count: usize, cs: Seq<LineChange>, offset: int, i: nat) -> Checked
    decreases cs.len(),
{
    if cs.len() == 0 {
        Checked::Passed
    } else {
        match adjusted(cs[0], offset) {
            None => Checked::Panics,
            Some(c) => match sim_check(count as nat, c, i) {
                Some(complaint) => Checked::Failed { complaint },
                None => match sim_offset(c) {
                    None => Checked::Panics,
                    Some(o) => if fits_i32(offset + o) && fits_i32(as_i32(count as int) + o) {
                        simulate_from(
                            ((as_i32(count as int) + o) as i32) as usize,
                            cs.drop_first(),
                            offset + o,
                            i + 1,
                        )
                    } else {
                        Checked::Panics
                    },
                },
            },
        }
    }
}

/// The dry run of `simulate_changes_application` on a file of `count` lines.
pub open spec fn simulate(count: usize, cs: Seq<LineChange>) -> Checked {
    simulate_from(count, sort_by_line(cs), 0, 0)
}

/// Builds a dry-run complaint.
fn sim_error(field: &str, n: usize, constraint: &str, what: &str, n2: usize, e2: usize, two: bool, i: usize, count: usize) -> (res: AicedError)
    requires
        i + 1 <= usize::MAX,
    ensures
        is_complaint(res, sim_complaint(field@, n as nat, constraint@, if two { what@ + decimal(n2 as nat) + "-"@ + decimal(e2 as nat) } else { what@ + decimal(n2 as nat) }, i as nat, count as nat)),
{
    let mut s = String::new();
    s.append("After applying previous changes, change ");
    push_decimal(&mut s, i + 1);
    s.append(what);
    push_decimal(&mut s, n2);
    if two {
        s.append("-");
        push_decimal(&mut s, e2);
    }
    s.append(" (file has ");
    push_decimal(&mut s, count);
    s.append(" lines)");
    assert(s@ =~= "After applying previous changes, change "@ + decimal((i + 1) as nat) + (if two { what@ + decimal(n2 as nat) + "-"@ + decimal(e2 as nat) } else { what@ + decimal(n2 as nat) }) + " (file has "@ + decimal(count as nat) + " lines)"@);
    complain(field, n, constraint, &s)
}

impl FileModifier {
    /// Dry run: checks that each change, moved by the offsets of the changes
    /// before it in line order, fits the file as it would be at that point.
    fn simulate_changes_application(changes: &[LineChange], start_len: usize) -> (res: AicedResult<()>)
        requires
            !(simulate(start_len, changes@) is Panics),
        ensures
            match simulate(start_len, changes@) {
                Checked::Passed => res is Ok,
                Checked::Failed { complaint } => res matches Err(e) && is_complaint(e, complaint),
                Checked::Panics => false,
            },
    {
        let order = Self::sort_indices(changes);
        proof {
            lemma_sorted_order_bounds(changes@, changes@.len() as int);
        }
        let ghost sorted = sort_by_line(changes@);
        let ghost target = simulate(start_len, changes@);
        let mut simulated_line_count: usize = start_len;
        let mut cumulative_offset: i32 = 0;
        let mut k: usize = 0;
        assert(sorted.skip(0) =~= sorted);
        while k < order.len()
            invariant
                k <= order@.len() == changes@.len(),
                sorted == sort_by_line(changes@),
                sorted.len() == order@.len(),
                forall|m: int| 0 <= m < order@.len() ==> #[trigger] order@[m] < changes@.len(),
                forall|m: int| 0 <= m < order@.len() ==> sorted[m] == changes@[#[trigger] order@[m] as int],
                target == simulate_from(simulated_line_count, sorted.skip(k as int), cumulative_offset as int, k as nat),
                target == simulate(start_len, changes@),
                !(target is Panics),
            decreases order@.len() - k,
        {
            let change = &changes[order[k]];
            assert(sorted.skip(k as int)[0] == *change);
            assert(sorted.skip(k as int).drop_first() =~= sorted.skip(k + 1));
            let adjusted_change = Self::adjust_change_line_numbers(change, cumulative_offset);
            proof {
                lemma_same_change_applies_alike(
                    Seq::empty(),
                    adjusted_change,
                    adjusted(*change, cumulative_offset as int)->0,
                );
            }
            let count = simulated_line_count;
            match &adjusted_change {
                LineChange::Replace { line_number, .. } | LineChange::Delete { line_number } => {
                    if *line_number == 0 || *line_number > count {
                        return Err(sim_error("line_number", *line_number, "Line Wrong", " would reference invalid line ", *line_number, 0, false, k, count));
                    }
                },
                LineChange::InsertAfter { line_number, .. } | LineChange::InsertManyAfter { line_number, .. } => {
                    if *line_number > count {
                        return Err(sim_error("line_number", *line_number, "Line Wrong", " would reference invalid line ", *line_number, 0, false, k, count));
                    }
                },
                LineChange::InsertBefore { line_number, .. } | LineChange::InsertManyBefore { line_number, .. } => {
                    if *line_number == 0 || *line_number - 1 > count {
                        return Err(sim_error("line_number", *line_number, "Line Wrong", " would insert before invalid line ", *line_number, 0, false, k, count));
                    }
                },
                LineChange::DeleteMany { start_line, end_line } => {
                    if *start_line == 0 || *end_line > count || start_line > end_line {
                        return Err(sim_error("line_range", *start_line, "Invalid Range", " would use invalid range ", *start_line, *end_line, true, k, count));
                    }
                },
                LineChange::ReplaceRange { start_line, end_line, .. } => {
                    if *start_line == 0 || *end_line > count || start_line > end_line {
                        return Err(sim_error("line_number", *start_line, "Line Wrong", " would use invalid range ", *start_line, *end_line, true, k, count));
                    }
                },
            }
            let line_offset: i32 = match &adjusted_change {
                LineChange::Replace { new_content, .. } => {
                    if str_has_char(new_content.as_str(), '\n') {
                        crate::text::line_count(new_content.as_str()) as i32 - 1
                    } else {
                        0
                    }
                },
                LineChange::InsertAfter { new_content, .. } | LineChange::InsertBefore { new_content, .. } => {
                    if str_has_char(new_content.as_str(), '\n') {
                        crate::text::line_count(new_content.as_str()) as i32
                    } else {
                        1
                    }
                },
                LineChange::InsertManyAfter { new_lines, .. } | LineChange::InsertManyBefore { new_lines, .. } => {
                    new_lines.len() as i32
                },
                LineChange::Delete { .. } => -1,
                LineChange::DeleteMany { start_line, end_line } => {
                    let deleted_count = end_line - start_line + 1;
                    -(deleted_count as i32)
                },
                LineChange::ReplaceRange { start_line, end_line, new_content, .. } => {
                    let old_line_count = end_line - start_line + 1;
                    let new_line_count = new_content.len();
                    new_line_count as i32 - old_line_count as i32
                },
            };
            cumulative_offset = cumulative_offset + line_offset;
            simulated_line_count = (simulated_line_count as i32 + line_offset) as usize;
            k = k + 1;
        }
        Ok(())
    }
}

/// Whether a moved change fits the file as it is now, as
/// `validate_single_change_against_current_state` checks it.
pub open spec fn fits_current(lines: Seq<Seq<char>>, c: LineChange) -> bool {
    let len = lines.len();
    match c {
        LineChange::Replace { line_number: n, old_content, .. } => 1 <= n <= len && trim(
            lines[n - 1],
        ) == trim(old_content@),
        LineChange::ReplaceRange { start_line: s, end_line: e, old_content, .. } => 1 <= s <= e
            <= len && first_block_mismatch(lines, s as int, string_views(old_content@), 0)
            >= old_content@.len(),
        LineChange::Delete { line_number: n } => 1 <= n <= len,
        LineChange::DeleteMany { start_line: s, end_line: e } => 1 <= s <= e <= len,
        LineChange::InsertAfter { line_number: n, .. } => n <= len,
        LineChange::InsertBefore { line_number: n, .. } => n <= len,
        LineChange::InsertManyAfter { line_number: n, .. } => n <= len,
        LineChange::InsertManyBefore { line_number: n, .. } => n <= len,
    }
}

/// The complaint about a line beyond the file.
pub open spec fn beyond_file(n: nat, len: nat) -> Complaint {
    complaint(
        "line_number"@,
        n,
        "Line Wrong"@,
        "Line "@ + decimal(n) + " is out of bounds (file has "@ + decimal(len) + " lines)"@,
    )
}

/// The complaint about a range that does not lie in the file.
pub open spec fn range_outside(s: nat, e: nat, len: nat) -> Complaint {
    complaint(
        "line_number"@,
        s,
        "Line Wrong"@,
        "Line range "@ + decimal(s) + "-"@ + decimal(e) + " is invalid (file has "@ + decimal(len)
            + " lines)"@,
    )
}

/// The complaint about a line that differs from the one expected.
pub open spec fn content_mismatch(n: nat, expected: Seq<char>, actual: Seq<char>) -> Complaint {
    complaint(
        "line_number"@,
        n,
        "Line Wrong"@,
        "Line "@ + decimal(n) + " content mismatch.\n    Expected: '"@ + expected + "'\n    Actual: '"@
            + actual + "'"@,
    )
}

/// The first line of a block, from the `i`-th on, that is beyond the file or
/// differs from the one expected.
pub open spec fn block_complaint(lines: Seq<Seq<char>>, s: int, old: Seq<Seq<char>>, i: int) -> Option<Complaint>
    decreases old.len() - i,
{
    if i < 0 || i >= old.len() {
        None
    } else if s - 1 + i >= lines.len() {
        Some(complaint("line_number"@, (s + i) as nat, "Line Wrong"@, "Line "@ + decimal((s + i) as nat) + " is out of bounds"@))
    } else if trim(lines[s - 1 + i]) != trim(old[i]) {
        Some(content_mismatch((s + i) as nat, old[i], lines[s - 1 + i]))
    } else {
        block_complaint(lines, s, old, i + 1)
    }
}

/// Why a moved change does not fit the file as it is now, as
/// `validate_single_change_against_current_state` reports it.
pub open spec fn current_complaint(lines: Seq<Seq<char>>, c: LineChange) -> Option<Complaint> {
    let len = lines.len();
    match c {
        LineChange::Replace { line_number: n, old_content, .. } => if n == 0 || n > len {
            Some(beyond_file(n as nat, len))
        } else if trim(lines[n - 1]) != trim(old_content@) {
            Some(content_mismatch(n as nat, old_content@, lines[n - 1]))
        } else {
            None
        },
        LineChange::ReplaceRange { start_line: s, end_line: e, old_content, .. } => if s == 0 || e > len
            || s > e {
            Some(range_outside(s as nat, e as nat, len))
        } else {
            block_complaint(lines, s as int, string_views(old_content@), 0)
        },
        LineChange::Delete { line_number: n } => if n == 0 || n > len {
            Some(beyond_file(n as nat, len))
        } else {
            None
        },
        LineChange::DeleteMany { start_line: s, end_line: e } => if s == 0 || e > len || s > e {
            Some(range_outside(s as nat, e as nat, len))
        } else {
            None
        },
        LineChange::InsertAfter { line_number: n, .. } => if n > len {
            Some(beyond_file(n as nat, len))
        } else {
            None
        },
        LineChange::InsertBefore { line_number: n, .. } => if n > len {
            Some(beyond_file(n as nat, len))
        } else {
            None
        },
        LineChange::InsertManyAfter { line_number: n, .. } => if n > len {
            Some(beyond_file(n as nat, len))
        } else {
            None
        },
        LineChange::InsertManyBefore { line_number: n, .. } => if n > len {
            Some(beyond_file(n as nat, len))
        } else {
            None
        },
    }
}

/// The outcome of the fuzzy search that relocates a change.
pub enum Relocated {
    Found { change: LineChange },
    NotFound { complaint: Complaint },
    Panics,
}

/// The `k`-th probe of a search around line `n`: offsets `0, 0, 0, 1, -1, 2, -2, ...`
/// (offset `k / 3`, direction `0, +1, -1` by `k % 3`), clamped below at 1;
/// `None` when the `i32` sum overflows.
pub open spec fn probe(n: usize, k: int) -> Option<usize> {
    let delta: int = if k % 3 == 0 { 0 } else if k % 3 == 1 { k / 3 } else { -(k / 3) };
    let v = as_i32(n as int) + delta;
    if fits_i32(v) {
        Some(if v < 1 { 1usize } else { v as usize })
    } else {
        None
    }
}

/// Searches the probes `k..limit` for a line whose trimmed text is `old`.
pub open spec fn search_line(lines: Seq<Seq<char>>, n: usize, old: Seq<char>, k: int, limit: int) -> Option<Option<usize>>
    decreases limit - k,
{
    if k >= limit {
        Some(None)
    } else {
        match probe(n, k) {
            None => None,
            Some(m) => if 1 <= m <= lines.len() && trim(lines[m - 1]) == trim(old) {
                Some(Some(m))
            } else {
                search_line(lines, n, old, k + 1, limit)
            },
        }
    }
}

/// Searches the probes `k..limit` for a start line where the block `old`
/// (ending `span` lines later) matches the file.
pub open spec fn search_block(lines: Seq<Seq<char>>, s: usize, span: int, old: Seq<Seq<char>>, k: int, limit: int) -> Option<Option<usize>>
    decreases limit - k,
{
    if k >= limit {
        Some(None)
    } else {
        match probe(s, k) {
            None => None,
            Some(m) => if m + span > usize::MAX {
                None
            } else if m + span <= lines.len() && first_block_mismatch(lines, m as int, old, 0) >= old.len() {
                Some(Some(m))
            } else {
                search_block(lines, s, span, old, k + 1, limit)
            },
        }
    }
}

/// The `k`-th probe of the search for a line to delete: `n+1, n-1, n+2, n-2, ...`,
/// clamped below at 1.
pub open spec fn delete_probe(n: usize, k: int) -> Option<usize> {
    let delta: int = if k % 2 == 0 { k / 2 + 1 } else { -(k / 2 + 1) };
    let v = as_i32(n as int) + delta;
    if fits_i32(v) {
        Some(if v < 1 { 1usize } else { v as usize })
    } else {
        None
    }
}

/// Searches the delete probes `k..10` for an existing line.
pub open spec fn search_delete(len: nat, n: usize, k: int) -> Option<Option<usize>>
    decreases 10 - k,
{
    if k >= 10 {
        Some(None)
    } else {
        match delete_probe(n, k) {
            None => None,
            Some(m) => if 1 <= m <= len {
                Some(Some(m))
            } else {
                search_delete(len, n, k + 1)
            },
        }
    }
}

/// `smart_validate_and_adjust_change`: the change relocated to where it fits the file.
pub open spec fn relocate(lines: Seq<Seq<char>>, c: LineChange) -> Relocated {
    let len = lines.len();
    match c {
        LineChange::Replace { line_number: n, old_content, new_content } => match search_line(lines, n, old_content@, 0, 30) {
            None => Relocated::Panics,
            Some(Some(m)) => Relocated::Found { change: LineChange::Replace { line_number: m, old_content, new_content } },
            Some(None) => Relocated::NotFound {
                complaint: complaint("smart_validation"@, 0, "ContentNotFound"@,
                    "Could not find matching content '"@ + trim(old_content@) + "' near line "@ + decimal(n as nat)),
            },
        },
        LineChange::ReplaceRange { start_line: s, end_line: e, old_content, new_content } => if e < s || e - s + 1 > usize::MAX {
            Relocated::Panics
        } else if old_content@.len() != e - s + 1 {
            Relocated::NotFound {
                complaint: complaint("smart_validation"@, 0, "RangeMismatch"@,
                    "Old content has "@ + decimal(old_content@.len()) + " lines but range is "@ + decimal((e - s + 1) as nat) + " lines"@),
            }
        } else {
            match search_block(lines, s, e - s, string_views(old_content@), 0, 60) {
                None => Relocated::Panics,
                Some(Some(m)) => Relocated::Found { change: LineChange::ReplaceRange { start_line: m, end_line: (m + (e - s)) as usize, old_content, new_content } },
                Some(None) => Relocated::NotFound {
                    complaint: complaint("smart_validation"@, 0, "ContentNotFound"@,
                        "Could not find matching range content for lines "@ + decimal(s as nat) + "-"@ + decimal(e as nat)),
                },
            }
        },
        LineChange::Delete { line_number: n } => if 1 <= n <= len {
            Relocated::Found { change: c }
        } else {
            match search_delete(len, n, 0) {
                None => Relocated::Panics,
                Some(Some(m)) => Relocated::Found { change: LineChange::Delete { line_number: m } },
                Some(None) => Relocated::NotFound {
                    complaint: complaint("smart_validation"@, 0, "LineNotFound"@,
                        "Could not find valid line near "@ + decimal(n as nat)),
                },
            }
        },
        LineChange::DeleteMany { start_line: s, end_line: e } => if 1 <= s <= e <= len {
            Relocated::Found { change: c }
        } else {
            let a = if s < 1 { 1usize } else { s };
            let b = if e < len { e } else { len as usize };
            if a <= b {
                Relocated::Found { change: LineChange::DeleteMany { start_line: a, end_line: b } }
            } else {
                Relocated::NotFound {
                    complaint: complaint("smart_validation"@, 0, "InvalidRange"@,
                        "Could not adjust range "@ + decimal(s as nat) + "-"@ + decimal(e as nat) + " to valid bounds"@),
                }
            }
        },
        LineChange::InsertAfter { line_number: n, new_content } => if n <= len {
            Relocated::Found { change: c }
        } else {
            Relocated::Found { change: LineChange::InsertAfter { line_number: len as usize, new_content } }
        },
        LineChange::InsertBefore { line_number: n, new_content } => if 1 <= n <= len + 1 {
            Relocated::Found { change: c }
        } else if n > len + 1 {
            Relocated::Found { change: LineChange::InsertBefore { line_number: (len + 1) as usize, new_content } }
        } else {
            Relocated::Found { change: LineChange::InsertBefore { line_number: 1, new_content } }
        },
        LineChange::InsertManyAfter { line_number: n, new_lines } => if n <= len {
            Relocated::Found { change: c }
        } else {
            Relocated::Found { change: LineChange::InsertManyAfter { line_number: len as usize, new_lines } }
        },
        LineChange::InsertManyBefore { line_number: n, new_lines } => if 1 <= n <= len + 1 {
            Relocated::Found { change: c }
        } else if n > len + 1 {
            Relocated::Found { change: LineChange::InsertManyBefore { line_number: (len + 1) as usize, new_lines } }
        } else {
            Relocated::Found { change: LineChange::InsertManyBefore { line_number: 1, new_lines } }
        },
    }
}

/// Whether the block `old` placed at line `s` matches the lines, probe by probe.
fn block_matches(lines: &[String], s: usize, old: &[String]) -> (res: bool)
    requires
        1 <= s,
    ensures
        res == (first_block_mismatch(string_views(lines@), s as int, string_views(old@), 0) >= old@.len()),
{
    let ghost o = string_views(old@);
    let mut i: usize = 0;
    while i < old.len()
        invariant
            i <= old@.len(),
            1 <= s,
            o == string_views(old@),
            first_block_mismatch(string_views(lines@), s as int, o, 0) == first_block_mismatch(string_views(lines@), s as int, o, i as int),
        decreases old@.len() - i,
    {
        if i >= lines.len() || s - 1 > lines.len() - 1 - i {
            return false;
        }
        let line_index = s - 1 + i;
        let actual = trimmed(&lines[line_index]);
        let expected = trimmed(&old[i]);
        if !chars_eq(actual.as_slice(), expected.as_slice()) {
            return false;
        }
        i = i + 1;
    }
    true
}

impl FileModifier {
    /// Checks a moved change against the file as it is now.
    fn validate_single_change_against_current_state(change: &LineChange, current_lines: &[String]) -> (res: AicedResult<()>)
        ensures
            res is Ok <==> fits_current(string_views(current_lines@), *change),
            match current_complaint(string_views(current_lines@), *change) {
                None => res is Ok,
                Some(c) => res matches Err(e) && is_complaint(e, c),
            },
    {
        let ghost ls = string_views(current_lines@);
        let len = current_lines.len();
        match change {
            LineChange::Replace { line_number, old_content, .. } => {
                if *line_number == 0 || *line_number > len {
                    return Err(Self::beyond_file_error(*line_number, len));
                }
                let actual = trimmed(&current_lines[*line_number - 1]);
                let expected = trimmed(old_content);
                assert(ls[*line_number - 1] == current_lines@[*line_number - 1]@);
                if !chars_eq(actual.as_slice(), expected.as_slice()) {
                    return Err(Self::mismatch_error(*line_number, old_content, &current_lines[*line_number - 1]));
                }
            },
            LineChange::ReplaceRange { start_line, end_line, old_content, .. } => {
                if *start_line == 0 || *end_line > len || start_line > end_line {
                    return Err(Self::range_outside_error(*start_line, *end_line, len));
                }
                let ghost o = string_views(old_content@);
                let mut i: usize = 0;
                while i < old_content.len()
                    invariant
                        i <= old_content@.len(),
                        1 <= *start_line <= *end_line <= len == current_lines@.len(),
                        o == string_views(old_content@),
                        ls == string_views(current_lines@),
                        block_complaint(ls, *start_line as int, o, 0) == block_complaint(ls, *start_line as int, o, i as int),
                        current_complaint(ls, *change) == block_complaint(ls, *start_line as int, o, 0),
                        fits_current(ls, *change) == (first_block_mismatch(ls, *start_line as int, o, 0) >= o.len()),
                        o.len() == old_content@.len(),
                        first_block_mismatch(ls, *start_line as int, o, 0) == first_block_mismatch(ls, *start_line as int, o, i as int),
                    decreases old_content@.len() - i,
                {
                    if i >= len || *start_line - 1 > len - 1 - i {
                        let n: u128 = (*start_line as u128) + (i as u128);
                        let mut m = owned("Line ");
                        push_decimal_wide(&mut m, n);
                        m.append(" is out of bounds");
                        let mut value = String::new();
                        push_decimal_wide(&mut value, n);
                        assert(value@ =~= decimal(n as nat));
                        let e = AicedError::validation_error("line_number", value.as_str(), "Line Wrong", Some(m.as_str()));
                        assert(first_block_mismatch(ls, *start_line as int, o, i as int) == i);
                        return Err(e);
                    }
                    let line_index = *start_line - 1 + i;
                    let actual = trimmed(&current_lines[line_index]);
                    let expected = trimmed(&old_content[i]);
                    assert(ls[line_index as int] == current_lines@[line_index as int]@);
                    assert(o[i as int] == old_content@[i as int]@);
                    if !chars_eq(actual.as_slice(), expected.as_slice()) {
                        return Err(Self::mismatch_error(line_index + 1, &old_content[i], &current_lines[line_index]));
                    }
                    i = i + 1;
                }
            },
            LineChange::Delete { line_number } => {
                if *line_number == 0 || *line_number > len {
                    return Err(Self::beyond_file_error(*line_number, len));
                }
            },
            LineChange::DeleteMany { start_line, end_line } => {
                if *start_line == 0 || *end_line > len || start_line > end_line {
                    return Err(Self::range_outside_error(*start_line, *end_line, len));
                }
            },
            LineChange::InsertAfter { line_number, .. } | LineChange::InsertBefore { line_number, .. }
            | LineChange::InsertManyAfter { line_number, .. } | LineChange::InsertManyBefore { line_number, .. } => {
                if *line_number > len {
                    return Err(Self::beyond_file_error(*line_number, len));
                }
            },
        }
        Ok(())
    }

    /// The `beyond_file` error.
    fn beyond_file_error(n: usize, len: usize) -> (res: AicedError)
        ensures
            is_complaint(res, beyond_file(n as nat, len as nat)),
    {
        let mut m = owned("Line ");
        push_decimal(&mut m, n);
        m.append(" is out of bounds (file has ");
        push_decimal(&mut m, len);
        m.append(" lines)");
        complain("line_number", n, "Line Wrong", &m)
    }

    /// The `range_outside` error.
    fn range_outside_error(s: usize, e: usize, len: usize) -> (res: AicedError)
        ensures
            is_complaint(res, range_outside(s as nat, e as nat, len as nat)),
    {
        let mut m = owned("Line range ");
        push_decimal(&mut m, s);
        m.append("-");
        push_decimal(&mut m, e);
        m.append(" is invalid (file has ");
        push_decimal(&mut m, len);
        m.append(" lines)");
        complain("line_number", s, "Line Wrong", &m)
    }

    /// The `content_mismatch` error.
    fn mismatch_error(n: usize, expected: &String, actual: &String) -> (res: AicedError)
        ensures
            is_complaint(res, content_mismatch(n as nat, expected@, actual@)),
    {
        let mut m = owned("Line ");
        push_decimal(&mut m, n);
        m.append(" content mismatch.\n    Expected: '");
        m.append(expected.as_str());
        m.append("'\n    Actual: '");
        m.append(actual.as_str());
        m.append("'");
        complain("line_number", n, "Line Wrong", &m)
    }
}

impl FileModifier {
    /// The `k`-th probe around line `n` (see `probe`).
    fn probe_at(n: usize, k: usize) -> (res: usize)
        requires
            k < 60,
            probe(n, k as int) is Some,
        ensures
            Some(res) == probe(n, k as int),
    {
        let offset = (k / 3) as i32;
        let line_offset: i32 = if k % 3 == 0 { 0 } else if k % 3 == 1 { offset } else { -offset };
        let v = n as i32 + line_offset;
        if v < 1 { 1 } else { v as usize }
    }

    /// Relocates a change that does not fit the file to where it does, searching
    /// near its line for its old content, or clamping it to the file's bounds.
    fn smart_validate_and_adjust_change(change: &LineChange, current_lines: &[String]) -> (res: AicedResult<LineChange>)
        requires
            !(relocate(string_views(current_lines@), *change) is Panics),
        ensures
            match relocate(string_views(current_lines@), *change) {
                Relocated::Found { change: c } => res matches Ok(r) && same_change(r, c),
                Relocated::NotFound { complaint } => res matches Err(e) && is_complaint(e, complaint),
                Relocated::Panics => false,
            },
    {
        let len = current_lines.len();
        let ghost lines = string_views(current_lines@);
        match change {
            LineChange::Replace { line_number, old_content, new_content } => {
                let expected = trimmed(old_content);
                let mut k: usize = 0;
                #[verifier::loop_isolation(false)]
                while k < 30
                    invariant
                        k <= 30,
                        lines == string_views(current_lines@),
                        expected@ == trim(old_content@),
                        search_line(lines, *line_number, old_content@, 0, 30) == search_line(lines, *line_number, old_content@, k as int, 30),
                        search_line(lines, *line_number, old_content@, 0, 30) is Some,
                    decreases 30 - k,
                {
                    let m = Self::probe_at(*line_number, k);
                    if m > 0 && m <= len {
                        let actual = trimmed(&current_lines[m - 1]);
                        if chars_eq(actual.as_slice(), expected.as_slice()) {
                            return Ok(LineChange::Replace {
                                line_number: m,
                                old_content: old_content.clone(),
                                new_content: new_content.clone(),
                            });
                        }
                    }
                    k = k + 1;
                }
                let mut s = String::new();
                s.append("Could not find matching content '");
                push_chars(&mut s, expected.as_slice());
                s.append("' near line ");
                push_decimal(&mut s, *line_number);
                Err(complain("smart_validation", 0, "ContentNotFound", &s))
            },
            LineChange::ReplaceRange { start_line, end_line, old_content, new_content } => {
                let range_size = end_line - start_line + 1;
                if old_content.len() != range_size {
                    let mut s = String::new();
                    s.append("Old content has ");
                    push_decimal(&mut s, old_content.len());
                    s.append(" lines but range is ");
                    push_decimal(&mut s, range_size);
                    s.append(" lines");
                    return Err(complain("smart_validation", 0, "RangeMismatch", &s));
                }
                let span = end_line - start_line;
                let mut k: usize = 0;
                #[verifier::loop_isolation(false)]
                while k < 60
                    invariant
                        k <= 60,
                        lines == string_views(current_lines@),
                        span == *end_line - *start_line,
                        search_block(lines, *start_line, span as int, string_views(old_content@), 0, 60) == search_block(lines, *start_line, span as int, string_views(old_content@), k as int, 60),
                        search_block(lines, *start_line, span as int, string_views(old_content@), 0, 60) is Some,
                    decreases 60 - k,
                {
                    let new_start = Self::probe_at(*start_line, k);
                    let new_end = new_start + span;
                    if new_end <= len && new_start >= 1 {
                        if block_matches(current_lines, new_start, old_content.as_slice()) {
                            return Ok(LineChange::ReplaceRange {
                                start_line: new_start,
                                end_line: new_end,
                                old_content: copy_strings(old_content.as_slice()),
                                new_content: copy_strings(new_content.as_slice()),
                            });
                        }
                    }
                    k = k + 1;
                }
                let mut s = String::new();
                s.append("Could not find matching range content for lines ");
                push_decimal(&mut s, *start_line);
                s.append("-");
                push_decimal(&mut s, *end_line);
                Err(complain("smart_validation", 0, "ContentNotFound", &s))
            },
            LineChange::Delete { line_number } => {
                if *line_number > 0 && *line_number <= len {
                    return Ok(change.duplicate());
                }
                let mut k: usize = 0;
                #[verifier::loop_isolation(false)]
                while k < 10
                    invariant
                        k <= 10,
                        search_delete(lines.len(), *line_number, 0) == search_delete(lines.len(), *line_number, k as int),
                        search_delete(lines.len(), *line_number, 0) is Some,
                        lines.len() == len,
                    decreases 10 - k,
                {
                    let offset = (k / 2 + 1) as i32;
                    let delta: i32 = if k % 2 == 0 { offset } else { -offset };
                    let v = *line_number as i32 + delta;
                    let m: usize = if v < 1 { 1 } else { v as usize };
                    if m > 0 && m <= len {
                        return Ok(LineChange::Delete { line_number: m });
                    }
                    k = k + 1;
                }
                let mut s = String::new();
                s.append("Could not find valid line near ");
                push_decimal(&mut s, *line_number);
                Err(complain("smart_validation", 0, "LineNotFound", &s))
            },
            LineChange::DeleteMany { start_line, end_line } => {
                if *start_line > 0 && *end_line <= len && start_line <= end_line {
                    return Ok(change.duplicate());
                }
                let adjusted_start = if *start_line < 1 { 1 } else { *start_line };
                let adjusted_end = if *end_line < len { *end_line } else { len };
                if adjusted_start <= adjusted_end {
                    Ok(LineChange::DeleteMany { start_line: adjusted_start, end_line: adjusted_end })
                } else {
                    let mut s = String::new();
                    s.append("Could not adjust range ");
                    push_decimal(&mut s, *start_line);
                    s.append("-");
                    push_decimal(&mut s, *end_line);
                    s.append(" to valid bounds");
                    Err(complain("smart_validation", 0, "InvalidRange", &s))
                }
            },
            LineChange::InsertAfter { line_number, new_content } => {
                if *line_number <= len {
                    Ok(change.duplicate())
                } else {
                    Ok(LineChange::InsertAfter { line_number: len, new_content: new_content.clone() })
                }
            },
            LineChange::InsertBefore { line_number, new_content } => {
                if *line_number >= 1 && *line_number - 1 <= len {
                    Ok(change.duplicate())
                } else if *line_number >= 1 {
                    Ok(LineChange::InsertBefore { line_number: len + 1, new_content: new_content.clone() })
                } else {
                    Ok(LineChange::InsertBefore { line_number: 1, new_content: new_content.clone() })
                }
            },
            LineChange::InsertManyAfter { line_number, new_lines } => {
                if *line_number <= len {
                    Ok(change.duplicate())
                } else {
                    Ok(LineChange::InsertManyAfter { line_number: len, new_lines: copy_strings(new_lines.as_slice()) })
                }
            },
            LineChange::InsertManyBefore { line_number, new_lines } => {
                if *line_number >= 1 && *line_number - 1 <= len {
                    Ok(change.duplicate())
                } else if *line_number >= 1 {
                    Ok(LineChange::InsertManyBefore { line_number: len + 1, new_lines: copy_strings(new_lines.as_slice()) })
                } else {
                    Ok(LineChange::InsertManyBefore { line_number: 1, new_lines: copy_strings(new_lines.as_slice()) })
                }
            },
        }
    }
}

/// Index of the first entry at or after `j` keyed `k`, or the number of entries.
pub open spec fn entry_index(e: Seq<(usize, i32)>, k: usize, j: int) -> int
    decreases e.len() - j,
{
    if j < 0 || j >= e.len() {
        e.len() as int
    } else if e[j].0 == k {
        j
    } else {
        entry_index(e, k, j + 1)
    }
}

/// The offset table with `k` mapped to `v` (`HashMap::insert`: a key keeps its place).
pub open spec fn entries_insert(e: Seq<(usize, i32)>, k: usize, v: i32) -> Seq<(usize, i32)> {
    let j = entry_index(e, k, 0);
    if j < e.len() {
        e.update(j, (k, v))
    } else {
        e.push((k, v))
    }
}

/// The sum, in table order, of the offsets of entries `j..` keyed below `t`,
/// added to `acc`; `None` when a partial sum leaves `i32`.
pub open spec fn offset_sum(e: Seq<(usize, i32)>, t: usize, j: int, acc: int) -> Option<int>
    decreases e.len() - j,
{
    if j < 0 || j >= e.len() {
        Some(acc)
    } else if e[j].0 < t {
        if fits_i32(acc + e[j].1) {
            offset_sum(e, t, j + 1, acc + e[j].1)
        } else {
            None
        }
    } else {
        offset_sum(e, t, j + 1, acc)
    }
}

/// The changes from the `i`-th on (counted in line order), each moved by the
/// offsets recorded for the lines before its own, checked against the file as
/// it is, relocated when it does not fit, and applied.
pub open spec fn smart_from(lines: Seq<Seq<char>>, cs: Seq<LineChange>, e: Seq<(usize, i32)>, i: nat) -> Applied
    decreases cs.len(),
{
    if cs.len() == 0 {
        Applied::Done { lines, offset: 0 }
    } else {
        let orig = key(cs[0]);
        match offset_sum(e, orig, 0, 0) {
            None => Applied::Panics,
            Some(cum) => match adjusted(cs[0], cum) {
                None => Applied::Panics,
                Some(adj) => {
                    let to_apply: Option<LineChange> = if fits_current(lines, adj) {
                        Some(adj)
                    } else {
                        match relocate(lines, adj) {
                            Relocated::Found { change } => Some(change),
                            _ => None,
                        }
                    };
                    if !fits_current(lines, adj) && relocate(lines, adj) is Panics {
                        Applied::Panics
                    } else if to_apply is None {
                        Applied::Failed { complaint: complaint("line_number"@, 0, "Line Wrong"@, "Change "@ + decimal(i + 1) + " validation failed"@) }
                    } else {
                        match apply_single_spec(lines, to_apply->0) {
                            Applied::Done { lines: l2, offset: o } => smart_from(l2, cs.drop_first(), entries_insert(e, orig, o as i32), i + 1),
                            Applied::Failed { complaint } => Applied::Failed { complaint },
                            Applied::Panics => Applied::Panics,
                        }
                    }
                },
            },
        }
    }
}

/// What `apply_file_modifications_with_smart_validation` does to the lines.
pub open spec fn apply_smart(lines: Seq<Seq<char>>, cs: Seq<LineChange>) -> Applied {
    smart_from(lines, sort_by_line(cs), Seq::empty(), 0)
}

/// Relocation finds changes that are the same edit for the same edit.
pub proof fn lemma_same_change_relocates_alike(lines: Seq<Seq<char>>, a: LineChange, b: LineChange)
    requires
        same_change(a, b),
    ensures
        fits_current(lines, a) == fits_current(lines, b),
        relocate(lines, a) is Panics <==> relocate(lines, b) is Panics,
        relocate(lines, a) is NotFound <==> relocate(lines, b) is NotFound,
        relocate(lines, a) is Found ==> same_change(relocate(lines, a)->change, relocate(lines, b)->change),
        relocate(lines, a) is NotFound ==> relocate(lines, a) == relocate(lines, b),
{
    match (a, b) {
        (
            LineChange::ReplaceRange { old_content: o1, new_content: c1, .. },
            LineChange::ReplaceRange { old_content: o2, new_content: c2, .. },
        ) => {
            assert(string_views(o1@).len() == o1@.len());
            assert(string_views(o2@).len() == o2@.len());
        },
        _ => {},
    }
}

impl FileModifier {
    /// The sum of the recorded offsets for lines before `target_line`.
    fn calculate_cumulative_offset(offset_map: &Vec<(usize, i32)>, target_line: usize) -> (res: i32)
        requires
            offset_sum(offset_map@, target_line, 0, 0) is Some,
        ensures
            Some(res as int) == offset_sum(offset_map@, target_line, 0, 0),
    {
        let mut cumulative_offset: i32 = 0;
        let mut j: usize = 0;
        while j < offset_map.len()
            invariant
                j <= offset_map@.len(),
                offset_sum(offset_map@, target_line, 0, 0) == offset_sum(offset_map@, target_line, j as int, cumulative_offset as int),
                offset_sum(offset_map@, target_line, 0, 0) is Some,
            decreases offset_map@.len() - j,
        {
            let (line_num, offset) = offset_map[j];
            if line_num < target_line {
                cumulative_offset = cumulative_offset + offset;
            }
            j = j + 1;
        }
        cumulative_offset
    }

    /// Records `offset` for `line` (a line keeps its place in the table).
    fn record_offset(offset_map: &mut Vec<(usize, i32)>, line: usize, offset: i32)
        ensures
            final(offset_map)@ == entries_insert(old(offset_map)@, line, offset),
    {
        let mut j: usize = 0;
        while j < offset_map.len()
            invariant
                j <= offset_map@.len(),
                offset_map@ == old(offset_map)@,
                entry_index(offset_map@, line, 0) == entry_index(offset_map@, line, j as int),
            decreases offset_map@.len() - j,
        {
            if offset_map[j].0 == line {
                offset_map.set(j, (line, offset));
                return;
            }
            j = j + 1;
        }
        offset_map.push((line, offset));
    }

    /// Applies the changes in line order; a change that does not fit the file as
    /// it is at that point is relocated to where it fits, if it can be.
    fn apply_in_line_order_smart(lines: &mut Vec<String>, changes: &[LineChange]) -> (res: AicedResult<()>)
        requires
            !(apply_smart(string_views(old(lines)@), changes@) is Panics),
        ensures
            match apply_smart(string_views(old(lines)@), changes@) {
                Applied::Done { lines: l, .. } => res is Ok && string_views(final(lines)@) == l,
                Applied::Failed { complaint } => res matches Err(e) && is_complaint(e, complaint),
                Applied::Panics => false,
            },
    {
        let order = Self::sort_indices(changes);
        proof {
            lemma_sorted_order_bounds(changes@, changes@.len() as int);
        }
        let ghost sorted = sort_by_line(changes@);
        let ghost target = apply_smart(string_views(lines@), changes@);
        let mut offset_map: Vec<(usize, i32)> = Vec::new();
        let mut k: usize = 0;
        assert(sorted.skip(0) =~= sorted);
        while k < order.len()
            invariant
                k <= order@.len() == changes@.len(),
                sorted == sort_by_line(changes@),
                sorted.len() == order@.len(),
                forall|m: int| 0 <= m < order@.len() ==> #[trigger] order@[m] < changes@.len(),
                forall|m: int| 0 <= m < order@.len() ==> sorted[m] == changes@[#[trigger] order@[m] as int],
                target == smart_from(string_views(lines@), sorted.skip(k as int), offset_map@, k as nat),
                target == apply_smart(string_views(old(lines)@), changes@),
                !(target is Panics),
            decreases order@.len() - k,
        {
            let change = &changes[order[k]];
            assert(sorted.skip(k as int)[0] == *change);
            assert(sorted.skip(k as int).drop_first() =~= sorted.skip(k + 1));
            let unmoved_line = Self::get_change_line_number(change);
            let cumulative_offset = Self::calculate_cumulative_offset(&offset_map, unmoved_line);
            let adjusted_change = Self::adjust_change_line_numbers(change, cumulative_offset);
            let ghost spec_adj = adjusted(*change, cumulative_offset as int)->0;
            proof {
                lemma_same_change_relocates_alike(string_views(lines@), adjusted_change, spec_adj);
            }
            let to_apply = match Self::validate_single_change_against_current_state(&adjusted_change, lines.as_slice()) {
                Ok(_) => adjusted_change,
                Err(_) => {
                    match Self::smart_validate_and_adjust_change(&adjusted_change, lines.as_slice()) {
                        Ok(smart_adjusted_change) => smart_adjusted_change,
                        Err(_) => {
                            let mut s = String::new();
                            s.append("Change ");
                            push_decimal(&mut s, k + 1);
                            s.append(" validation failed");
                            return Err(complain("line_number", 0, "Line Wrong", &s));
                        },
                    }
                },
            };
            proof {
                if fits_current(string_views(lines@), spec_adj) {
                    lemma_same_change_applies_alike(string_views(lines@), to_apply, spec_adj);
                } else {
                    lemma_same_change_applies_alike(string_views(lines@), to_apply, relocate(string_views(lines@), spec_adj)->change);
                }
            }
            let line_offset = Self::apply_single_change(lines, &to_apply)?;
            Self::record_offset(&mut offset_map, unmoved_line, line_offset);
            k = k + 1;
        }
        assert(sorted.skip(k as int) =~= Seq::<LineChange>::empty());
        Ok(())
    }
}

/// Why an operation on the files failed.
pub enum Failure {
    /// A `validation_error` with this content.
    Complaint { complaint: Complaint },
    /// `file_error(path, "not_found", "File does not exist: " + path)`.
    NotFound { path: Seq<char> },
    /// The error that reading a file gave: `SystemError { "I/O operation", reason }`.
    Io { reason: Seq<char> },
}

/// `e` is the error that `f` describes.
pub open spec fn describes(e: AicedError, f: Failure) -> bool {
    match f {
        Failure::Complaint { complaint } => is_complaint(e, complaint),
        Failure::NotFound { path } => e matches AicedError::FileOperationError {
            file_path,
            operation,
            reason,
        } && file_path@ == path && operation@ == "not_found"@ && reason@ == "File does not exist: "@
            + path,
        Failure::Io { reason } => e matches AicedError::SystemError { operation, reason: r }
            && operation@ == "I/O operation"@ && r@ == reason,
    }
}

/// The outcome of an operation on the files.
pub enum Outcome {
    Done { files: Map<Seq<char>, FileState> },
    Refused { failure: Failure },
    Panics,
}

/// The complaint that the file to delete does not exist.
pub open spec fn missing_file(p: Seq<char>) -> Complaint {
    Complaint {
        field: "file_exists"@,
        value: p,
        constraint: "Line Wrong"@,
        suggestion: "File does not exist"@,
    }
}

/// `apply_file_modifications` on the file at `p`: validate all changes against
/// the file, then apply them in line order and write the file back.
pub open spec fn modify_outcome(m: Map<Seq<char>, FileState>, p: Seq<char>, cs: Seq<LineChange>) -> Outcome {
    if !m[p].exists {
        Outcome::Refused { failure: Failure::NotFound { path: p } }
    } else {
        match m[p].text {
            None => Outcome::Refused { failure: Failure::Io { reason: m[p].read_error } },
            Some(t) => {
                let ls = lines_of(t);
                match first_invalid(ls, cs, 0) {
                    Some(i) => Outcome::Refused {
                        failure: Failure::Complaint { complaint: change_failed(i as nat) },
                    },
                    None => match apply_sorted(ls, cs) {
                        Applied::Done { lines: l, .. } => Outcome::Done {
                            files: m.insert(p, after_write(m[p], join(l, "\n"@))),
                        },
                        Applied::Failed { complaint } => Outcome::Refused {
                            failure: Failure::Complaint { complaint },
                        },
                        Applied::Panics => Outcome::Panics,
                    },
                }
            },
        }
    }
}

/// `validate_file_modifications` on the file at `p`: check the changes against
/// the file and dry-run them; the files are unchanged.
pub open spec fn check_outcome(m: Map<Seq<char>, FileState>, p: Seq<char>, cs: Seq<LineChange>) -> Outcome {
    match m[p].text {
        None => Outcome::Refused { failure: Failure::Io { reason: m[p].read_error } },
        Some(t) => {
            let ls = lines_of(t);
            match first_invalid(ls, cs, 0) {
                Some(i) => Outcome::Refused {
                    failure: Failure::Complaint { complaint: change_failed(i as nat) },
                },
                None => match simulate(ls.len() as usize, cs) {
                    Checked::Passed => Outcome::Done { files: m },
                    Checked::Failed { complaint } => Outcome::Refused {
                        failure: Failure::Complaint { complaint },
                    },
                    Checked::Panics => Outcome::Panics,
                },
            }
        },
    }
}

/// `apply_file_modifications_with_smart_validation` on the file at `p`.
pub open spec fn smart_outcome(m: Map<Seq<char>, FileState>, p: Seq<char>, cs: Seq<LineChange>) -> Outcome {
    if !m[p].exists {
        Outcome::Refused { failure: Failure::NotFound { path: p } }
    } else {
        match m[p].text {
            None => Outcome::Refused { failure: Failure::Io { reason: m[p].read_error } },
            Some(t) => match apply_smart(lines_of(t), cs) {
                Applied::Done { lines: l, .. } => Outcome::Done {
                    files: m.insert(p, after_write(m[p], join(l, "\n"@))),
                },
                Applied::Failed { complaint } => Outcome::Refused {
                    failure: Failure::Complaint { complaint },
                },
                Applied::Panics => Outcome::Panics,
            },
        }
    }
}

/// `delete_file` on the file at `p`.
pub open spec fn delete_outcome(m: Map<Seq<char>, FileState>, p: Seq<char>) -> Outcome {
    if m[p].exists {
        Outcome::Done { files: m.insert(p, after_remove(m[p])) }
    } else {
        Outcome::Refused { failure: Failure::Complaint { complaint: missing_file(p) } }
    }
}

/// The error of a failed read.
fn io_error(reason: String) -> (res: AicedError)
    ensures
        describes(res, Failure::Io { reason: reason@ }),
{
    AicedError::SystemError { operation: owned("I/O operation"), reason }
}

/// The error of a file that is not there.
fn not_found_error(p: &String) -> (res: AicedError)
    ensures
        describes(res, Failure::NotFound { path: p@ }),
{
    let mut reason = owned("File does not exist: ");
    reason.append(p.as_str());
    AicedError::file_error(p.as_str(), "not_found", reason.as_str())
}

impl FileModifier {
    /// Validates the line changes against the file `repo_path/file_path`, applies
    /// them in line order, and writes the file back.
    pub fn apply_file_modifications(store: &mut FileStore, repo_path: &str, file_path: &str, changes: &[LineChange]) -> (res: AicedResult<()>)
        requires
            !(modify_outcome(old(store)@, full_path(repo_path@, file_path@), changes@) is Panics),
        ensures
            match modify_outcome(old(store)@, full_path(repo_path@, file_path@), changes@) {
                Outcome::Done { files } => res is Ok && final(store)@ == files,
                Outcome::Refused { failure } => res matches Err(e) && describes(e, failure) && final(store)@ == old(store)@,
                Outcome::Panics => false,
            },
    {
        let full = make_full_path(repo_path, file_path);
        if !store.file_is_present(full.as_str()) {
            return Err(not_found_error(&full));
        }
        let content = match store.read(full.as_str()) {
            Ok(c) => c,
            Err(reason) => return Err(io_error(reason)),
        };
        let mut lines = Self::text_to_lines(content.as_str());
        Self::validate_changes(changes, lines.as_slice())?;
        Self::apply_in_line_order(&mut lines, changes)?;
        let new_content = join_strings(&lines, "\n");
        store.write(full.as_str(), new_content);
        Ok(())
    }

    /// Checks the line changes against the file `repo_path/file_path` and dry-runs them.
    pub fn validate_file_modifications(store: &FileStore, repo_path: &str, file_path: &str, changes: &[LineChange]) -> (res: AicedResult<()>)
        requires
            !(check_outcome(store@, full_path(repo_path@, file_path@), changes@) is Panics),
        ensures
            match check_outcome(store@, full_path(repo_path@, file_path@), changes@) {
                Outcome::Done { .. } => res is Ok,
                Outcome::Refused { failure } => res matches Err(e) && describes(e, failure),
                Outcome::Panics => false,
            },
    {
        let full = make_full_path(repo_path, file_path);
        let content = match store.read(full.as_str()) {
            Ok(c) => c,
            Err(reason) => return Err(io_error(reason)),
        };
        let lines = Self::text_to_lines(content.as_str());
        Self::validate_changes(changes, lines.as_slice())?;
        Self::simulate_changes_application(changes, lines.len())?;
        Ok(())
    }

    /// Applies the line changes to the file `repo_path/file_path` in line order,
    /// relocating a change that does not fit, and writes the file back.
    pub fn apply_file_modifications_with_smart_validation(store: &mut FileStore, repo_path: &str, file_path: &str, changes: &[LineChange]) -> (res: AicedResult<()>)
        requires
            !(smart_outcome(old(store)@, full_path(repo_path@, file_path@), changes@) is Panics),
        ensures
            match smart_outcome(old(store)@, full_path(repo_path@, file_path@), changes@) {
                Outcome::Done { files } => res is Ok && final(store)@ == files,
                Outcome::Refused { failure } => res matches Err(e) && describes(e, failure) && final(store)@ == old(store)@,
                Outcome::Panics => false,
            },
    {
        let full = make_full_path(repo_path, file_path);
        if !store.file_is_present(full.as_str()) {
            return Err(not_found_error(&full));
        }
        let content = match store.read(full.as_str()) {
            Ok(c) => c,
            Err(reason) => return Err(io_error(reason)),
        };
        let mut lines = Self::text_to_lines(content.as_str());
        Self::apply_in_line_order_smart(&mut lines, changes)?;
        let new_content = join_strings(&lines, "\n");
        store.write(full.as_str(), new_content);
        Ok(())
    }

    /// Writes a new file (the application creates its directories).
    pub(crate) fn create_file(store: &mut FileStore, repo_path: &str, file_path: &str, content: &str) -> (res: AicedResult<()>)
        ensures
            res is Ok,
            final(store)@ == old(store)@.insert(full_path(repo_path@, file_path@), after_write(old(store)@[full_path(repo_path@, file_path@)], content@)),
    {
        let full = make_full_path(repo_path, file_path);
        store.write(full.as_str(), owned(content));
        Ok(())
    }

    /// Removes a file that exists.
    pub(crate) fn delete_file(store: &mut FileStore, repo_path: &str, file_path: &str) -> (res: AicedResult<()>)
        ensures
            match delete_outcome(old(store)@, full_path(repo_path@, file_path@)) {
                Outcome::Done { files } => res is Ok && final(store)@ == files,
                Outcome::Refused { failure } => res matches Err(e) && describes(e, failure) && final(store)@ == old(store)@,
                Outcome::Panics => false,
            },
    {
        let full = make_full_path(repo_path, file_path);
        if store.file_is_present(full.as_str()) {
            store.remove(full.as_str());
            Ok(())
        } else {
            let s = owned("File does not exist");
            Err(AicedError::validation_error("file_exists", full.as_str(), "Line Wrong", Some(s.as_str())))
        }
    }
}

} // verus!
