//! A single edit to the lines of a file, as the analysis proposes it.

use vstd::prelude::*;
use crate::errors::{AicedError, AicedResult};
use crate::text::{
    decimal, has_char, lines_of, trim, string_views, str_has_char, line_count, push_decimal,
    lemma_newline_has_lines, to_chars, trim_chars,
};

verus! {

/// One edit of a file's lines. Line numbers count from 1.
#[derive(Debug, Clone)]
#[allow(inconsistent_fields)]
pub enum LineChange {
    Replace { line_number: usize, old_content: String, new_content: String },
    InsertAfter { line_number: usize, new_content: String },
    InsertBefore { line_number: usize, new_content: String },
    Delete { line_number: usize },
    ReplaceRange {
        start_line: usize,
        end_line: usize,
        old_content: Vec<String>,
        new_content: Vec<String>,
    },
    InsertManyAfter { line_number: usize, new_lines: Vec<String> },
    InsertManyBefore { line_number: usize, new_lines: Vec<String> },
    DeleteMany { start_line: usize, end_line: usize },
}

/// The change with its texts as character sequences.
#[allow(inconsistent_fields)]
pub enum LineChangeView {
    Replace { line_number: usize, old_content: Seq<char>, new_content: Seq<char> },
    InsertAfter { line_number: usize, new_content: Seq<char> },
    InsertBefore { line_number: usize, new_content: Seq<char> },
    Delete { line_number: usize },
    ReplaceRange {
        start_line: usize,
        end_line: usize,
        old_content: Seq<Seq<char>>,
        new_content: Seq<Seq<char>>,
    },
    InsertManyAfter { line_number: usize, new_lines: Seq<Seq<char>> },
    InsertManyBefore { line_number: usize, new_lines: Seq<Seq<char>> },
    DeleteMany { start_line: usize, end_line: usize },
}

impl View for LineChange {
    type V = LineChangeView;

    open spec fn view(&self) -> LineChangeView {
        match self {
            LineChange::Replace { line_number, old_content, new_content } => LineChangeView::Replace {
                line_number: *line_number,
                old_content: old_content@,
                new_content: new_content@,
            },
            LineChange::InsertAfter { line_number, new_content } => LineChangeView::InsertAfter {
                line_number: *line_number,
                new_content: new_content@,
            },
            LineChange::InsertBefore { line_number, new_content } => LineChangeView::InsertBefore {
                line_number: *line_number,
                new_content: new_content@,
            },
            LineChange::Delete { line_number } => LineChangeView::Delete { line_number: *line_number },
            LineChange::ReplaceRange { start_line, end_line, old_content, new_content } =>
                LineChangeView::ReplaceRange {
                start_line: *start_line,
                end_line: *end_line,
                old_content: string_views(old_content@),
                new_content: string_views(new_content@),
            },
            LineChange::InsertManyAfter { line_number, new_lines } => LineChangeView::InsertManyAfter {
                line_number: *line_number,
                new_lines: string_views(new_lines@),
            },
            LineChange::InsertManyBefore { line_number, new_lines } =>
                LineChangeView::InsertManyBefore {
                line_number: *line_number,
                new_lines: string_views(new_lines@),
            },
            LineChange::DeleteMany { start_line, end_line } => LineChangeView::DeleteMany {
                start_line: *start_line,
                end_line: *end_line,
            },
        }
    }
}

/// The views of a sequence of changes.
pub open spec fn change_views(cs: Seq<LineChange>) -> Seq<LineChangeView> {
    cs.map_values(|c: LineChange| c@)
}

/// The two changes are the same edit: same kind, same numbers, same texts.
pub open spec fn same_change(a: LineChange, b: LineChange) -> bool {
    a@ == b@
}

/// Whether the change spans more than one line.
pub open spec fn multi_line(c: LineChangeView) -> bool {
    match c {
        LineChangeView::Replace { new_content, .. } => has_char(new_content, '\n'),
        LineChangeView::InsertAfter { new_content, .. } => has_char(new_content, '\n'),
        LineChangeView::InsertBefore { new_content, .. } => has_char(new_content, '\n'),
        LineChangeView::ReplaceRange { start_line, end_line, .. } => end_line > start_line,
        LineChangeView::Delete { .. } => false,
        LineChangeView::InsertManyAfter { .. } => true,
        LineChangeView::InsertManyBefore { .. } => true,
        LineChangeView::DeleteMany { .. } => true,
    }
}

/// The lines a single-text change covers: from its line to one line per line of new text.
pub open spec fn text_span(line_number: usize, text: Seq<char>) -> (int, int) {
    if has_char(text, '\n') {
        (line_number as int, line_number + lines_of(text).len() - 1)
    } else {
        (line_number as int, line_number as int)
    }
}

/// The first and last line a change affects.
pub open spec fn affected_range(c: LineChangeView) -> (int, int) {
    match c {
        LineChangeView::Replace { line_number, new_content, .. } => text_span(
            line_number,
            new_content,
        ),
        LineChangeView::InsertAfter { line_number, new_content } => text_span(
            line_number,
            new_content,
        ),
        LineChangeView::InsertBefore { line_number, new_content } => text_span(
            line_number,
            new_content,
        ),
        LineChangeView::Delete { line_number } => (line_number as int, line_number as int),
        LineChangeView::ReplaceRange { start_line, end_line, .. } => (
            start_line as int,
            end_line as int,
        ),
        LineChangeView::InsertManyAfter { line_number, new_lines } => (
            line_number as int,
            line_number + new_lines.len() - 1,
        ),
        LineChangeView::InsertManyBefore { line_number, new_lines } => (
            line_number as int,
            line_number + new_lines.len() - 1,
        ),
        LineChangeView::DeleteMany { start_line, end_line } => (start_line as int, end_line as int),
    }
}

/// A line number plus the number of lines of a text fits in `usize`.
pub open spec fn text_span_computable(line_number: usize, text: Seq<char>) -> bool {
    has_char(text, '\n') ==> line_number + lines_of(text).len() <= usize::MAX
}

/// The range can be computed in `usize` without overflow or underflow.
pub open spec fn range_computable(c: LineChangeView) -> bool {
    match c {
        LineChangeView::Replace { line_number, new_content, .. } => text_span_computable(
            line_number,
            new_content,
        ),
        LineChangeView::InsertAfter { line_number, new_content } => text_span_computable(
            line_number,
            new_content,
        ),
        LineChangeView::InsertBefore { line_number, new_content } => text_span_computable(
            line_number,
            new_content,
        ),
        LineChangeView::InsertManyAfter { line_number, new_lines } => line_number + new_lines.len()
            <= usize::MAX && line_number + new_lines.len() >= 1,
        LineChangeView::InsertManyBefore { line_number, new_lines } => line_number + new_lines.len()
            <= usize::MAX && line_number + new_lines.len() >= 1,
        _ => true,
    }
}

/// Two changes touch a common line.
pub open spec fn ranges_overlap(a: LineChangeView, b: LineChangeView) -> bool {
    !(affected_range(a).1 < affected_range(b).0 || affected_range(b).1 < affected_range(a).0)
}

/// The one-line description of a change.
pub open spec fn description(c: LineChangeView) -> Seq<char> {
    match c {
        LineChangeView::Replace { line_number, .. } => if multi_line(c) {
            "Replace line "@ + decimal(line_number as nat) + " with multiple lines"@
        } else {
            "Replace line "@ + decimal(line_number as nat)
        },
        LineChangeView::InsertAfter { line_number, .. } => if multi_line(c) {
            "Insert multiple lines after line "@ + decimal(line_number as nat)
        } else {
            "Insert line after line "@ + decimal(line_number as nat)
        },
        LineChangeView::InsertBefore { line_number, .. } => if multi_line(c) {
            "Insert multiple lines before line "@ + decimal(line_number as nat)
        } else {
            "Insert line before line "@ + decimal(line_number as nat)
        },
        LineChangeView::Delete { line_number } => "Delete line "@ + decimal(line_number as nat),
        LineChangeView::ReplaceRange { start_line, end_line, new_content, .. } => "Replace lines "@
            + decimal(start_line as nat) + "-"@ + decimal(end_line as nat) + " with "@ + decimal(
            new_content.len(),
        ) + " lines"@,
        LineChangeView::InsertManyAfter { line_number, new_lines } => "Insert "@ + decimal(
            new_lines.len(),
        ) + " lines after line "@ + decimal(line_number as nat),
        LineChangeView::InsertManyBefore { line_number, new_lines } => "Insert "@ + decimal(
            new_lines.len(),
        ) + " lines before line "@ + decimal(line_number as nat),
        LineChangeView::DeleteMany { start_line, end_line } => "Delete lines "@ + decimal(
            start_line as nat,
        ) + "-"@ + decimal(end_line as nat),
    }
}

/// Index of the first line that is empty or white space only, or `lines.len()`.
pub open spec fn first_blank(lines: Seq<Seq<char>>, i: int) -> int
    decreases lines.len() - i,
{
    if i < 0 || i >= lines.len() {
        lines.len() as int
    } else if trim(lines[i]).len() == 0 {
        i
    } else {
        first_blank(lines, i + 1)
    }
}

/// Why a change is malformed, or `None` when it is well formed.
pub open spec fn validation_failure(c: LineChangeView) -> Option<Seq<char>> {
    match c {
        LineChangeView::Replace { line_number, old_content, new_content } => if line_number == 0 {
            Some("Line number cannot be 0"@)
        } else if old_content.len() == 0 {
            Some("Old content cannot be empty for replace operation"@)
        } else if new_content.len() == 0 {
            Some("New content cannot be empty for replace operation"@)
        } else {
            None
        },
        LineChangeView::InsertAfter { new_content, .. } => if new_content.len() == 0 {
            Some("New content cannot be empty for insert operation"@)
        } else {
            None
        },
        LineChangeView::InsertBefore { line_number, new_content } => if line_number == 0 {
            Some("Line number cannot be 0 for insert_before operation"@)
        } else if new_content.len() == 0 {
            Some("New content cannot be empty for insert operation"@)
        } else {
            None
        },
        LineChangeView::Delete { line_number } => if line_number == 0 {
            Some("Line number cannot be 0"@)
        } else {
            None
        },
        LineChangeView::ReplaceRange { start_line, end_line, old_content, .. } => if start_line == 0 {
            Some("Start line cannot be 0"@)
        } else if start_line > end_line {
            Some("Start line cannot be greater than end line"@)
        } else if old_content.len() == 0 {
            Some("Old content cannot be empty for replace_range operation"@)
        } else {
            None
        },
        LineChangeView::InsertManyAfter { new_lines, .. } => blank_lines_failure(new_lines),
        LineChangeView::InsertManyBefore { line_number, new_lines } => if line_number == 0 {
            Some("Line number cannot be 0 for insert_many_before operation"@)
        } else {
            blank_lines_failure(new_lines)
        },
        LineChangeView::DeleteMany { start_line, end_line } => if start_line == 0 {
            Some("Start line cannot be 0"@)
        } else if start_line > end_line {
            Some("Start line cannot be greater than end line"@)
        } else {
            None
        },
    }
}

/// The failure of a block of lines to insert: empty, or holding a blank line.
pub open spec fn blank_lines_failure(lines: Seq<Seq<char>>) -> Option<Seq<char>> {
    let k = first_blank(lines, 0);
    if lines.len() == 0 {
        Some("New lines cannot be empty for multi-line insert operation"@)
    } else if k < lines.len() {
        Some("Line "@ + decimal((k + 1) as nat) + " in new_lines is empty or whitespace-only"@)
    } else {
        None
    }
}

/// `e` is the error `system_error("validate line", reason)`.
pub open spec fn is_validate_error(e: AicedError, reason: Seq<char>) -> bool {
    e matches AicedError::SystemError { operation, reason: r } && operation@ == "validate line"@
        && r@ == reason
}

impl LineChange {
    /// An identical copy of the change.
    pub fn duplicate(&self) -> (res: LineChange)
        ensures
            same_change(res, *self),
    {
        match self {
            LineChange::Replace { line_number, old_content, new_content } => LineChange::Replace {
                line_number: *line_number,
                old_content: old_content.clone(),
                new_content: new_content.clone(),
            },
            LineChange::InsertAfter { line_number, new_content } => LineChange::InsertAfter {
                line_number: *line_number,
                new_content: new_content.clone(),
            },
            LineChange::InsertBefore { line_number, new_content } => LineChange::InsertBefore {
                line_number: *line_number,
                new_content: new_content.clone(),
            },
            LineChange::Delete { line_number } => LineChange::Delete { line_number: *line_number },
            LineChange::ReplaceRange { start_line, end_line, old_content, new_content } => {
                let o = old_content.clone();
                let n = new_content.clone();
                assert(o@ =~= old_content@);
                assert(n@ =~= new_content@);
                LineChange::ReplaceRange {
                    start_line: *start_line,
                    end_line: *end_line,
                    old_content: o,
                    new_content: n,
                }
            },
            LineChange::InsertManyAfter { line_number, new_lines } => {
                let n = new_lines.clone();
                assert(n@ =~= new_lines@);
                LineChange::InsertManyAfter { line_number: *line_number, new_lines: n }
            },
            LineChange::InsertManyBefore { line_number, new_lines } => {
                let n = new_lines.clone();
                assert(n@ =~= new_lines@);
                LineChange::InsertManyBefore { line_number: *line_number, new_lines: n }
            },
            LineChange::DeleteMany { start_line, end_line } => LineChange::DeleteMany {
                start_line: *start_line,
                end_line: *end_line,
            },
        }
    }

    /// Whether the change spans more than one line.
    pub fn is_multi_line(&self) -> (res: bool)
        ensures
            res == multi_line(self@),
    {
        match self {
            LineChange::Replace { new_content, .. } => str_has_char(new_content.as_str(), '\n'),
            LineChange::InsertAfter { new_content, .. } | LineChange::InsertBefore {
                new_content,
                ..
            } => str_has_char(new_content.as_str(), '\n'),
            LineChange::ReplaceRange { start_line, end_line, .. } => end_line > start_line,
            LineChange::Delete { .. } => false,
            LineChange::InsertManyAfter { .. } | LineChange::InsertManyBefore { .. }
            | LineChange::DeleteMany { .. } => true,
        }
    }

    /// The first and last line the change affects.
    pub fn get_affected_line_range(&self) -> (res: (usize, usize))
        requires
            range_computable(self@),
        ensures
            res.0 == affected_range(self@).0,
            res.1 == affected_range(self@).1,
    {
        match self {
            LineChange::Replace { line_number, new_content, .. } | LineChange::InsertAfter {
                line_number,
                new_content,
            } | LineChange::InsertBefore { line_number, new_content } => {
                if str_has_char(new_content.as_str(), '\n') {
                    let count = line_count(new_content.as_str());
                    proof {
                        lemma_newline_has_lines(new_content@);
                    }
                    (*line_number, *line_number + count - 1)
                } else {
                    (*line_number, *line_number)
                }
            },
            LineChange::Delete { line_number } => (*line_number, *line_number),
            LineChange::ReplaceRange { start_line, end_line, .. } => (*start_line, *end_line),
            LineChange::InsertManyAfter { line_number, new_lines } => (
                *line_number,
                *line_number + new_lines.len() - 1,
            ),
            LineChange::InsertManyBefore { line_number, new_lines } => (
                *line_number,
                *line_number + new_lines.len() - 1,
            ),
            LineChange::DeleteMany { start_line, end_line } => (*start_line, *end_line),
        }
    }

    /// Whether the two changes touch a common line.
    pub fn conflicts_with(&self, other: &LineChange) -> (res: bool)
        requires
            range_computable(self@),
            range_computable(other@),
        ensures
            res == ranges_overlap(self@, other@),
    {
        let (self_start, self_end) = self.get_affected_line_range();
        let (other_start, other_end) = other.get_affected_line_range();
        !(self_end < other_start || other_end < self_start)
    }

    /// The one-line description of the change.
    pub fn get_description(&self) -> (res: String)
        ensures
            res@ == description(self@),
    {
        let mut s = String::new();
        match self {
            LineChange::Replace { line_number, .. } => {
                s.append("Replace line ");
                push_decimal(&mut s, *line_number);
                if self.is_multi_line() {
                    s.append(" with multiple lines");
                }
            },
            LineChange::InsertAfter { line_number, .. } => {
                if self.is_multi_line() {
                    s.append("Insert multiple lines after line ");
                } else {
                    s.append("Insert line after line ");
                }
                push_decimal(&mut s, *line_number);
            },
            LineChange::InsertBefore { line_number, .. } => {
                if self.is_multi_line() {
                    s.append("Insert multiple lines before line ");
                } else {
                    s.append("Insert line before line ");
                }
                push_decimal(&mut s, *line_number);
            },
            LineChange::Delete { line_number } => {
                s.append("Delete line ");
                push_decimal(&mut s, *line_number);
            },
            LineChange::ReplaceRange { start_line, end_line, new_content, .. } => {
                s.append("Replace lines ");
                push_decimal(&mut s, *start_line);
                s.append("-");
                push_decimal(&mut s, *end_line);
                s.append(" with ");
                push_decimal(&mut s, new_content.len());
                s.append(" lines");
            },
            LineChange::InsertManyAfter { line_number, new_lines } => {
                s.append("Insert ");
                push_decimal(&mut s, new_lines.len());
                s.append(" lines after line ");
                push_decimal(&mut s, *line_number);
            },
            LineChange::InsertManyBefore { line_number, new_lines } => {
                s.append("Insert ");
                push_decimal(&mut s, new_lines.len());
                s.append(" lines before line ");
                push_decimal(&mut s, *line_number);
            },
            LineChange::DeleteMany { start_line, end_line } => {
                s.append("Delete lines ");
                push_decimal(&mut s, *start_line);
                s.append("-");
                push_decimal(&mut s, *end_line);
            },
        }
        assert(s@ =~= description(self@));
        s
    }

    /// Checks that the change is well formed on its own.
    pub fn validate(&self) -> (res: AicedResult<()>)
        ensures
            res is Ok <==> validation_failure(self@) is None,
            res matches Err(e) ==> is_validate_error(e, validation_failure(self@)->0),
    {
        match self {
            LineChange::Replace { line_number, old_content, new_content } => {
                if *line_number == 0 {
                    return Err(AicedError::system_error("validate line", "Line number cannot be 0"));
                }
                if old_content.as_str().is_empty() {
                    return Err(
                        AicedError::system_error(
                            "validate line",
                            "Old content cannot be empty for replace operation",
                        ),
                    );
                }
                if new_content.as_str().is_empty() {
                    return Err(
                        AicedError::system_error(
                            "validate line",
                            "New content cannot be empty for replace operation",
                        ),
                    );
                }
            },
            LineChange::InsertAfter { line_number, new_content } | LineChange::InsertBefore {
                line_number,
                new_content,
            } => {
                if *line_number == 0 && matches!(self, LineChange::InsertBefore { .. }) {
                    return Err(
                        AicedError::system_error(
                            "validate line",
                            "Line number cannot be 0 for insert_before operation",
                        ),
                    );
                }
                if new_content.as_str().is_empty() {
                    return Err(
                        AicedError::system_error(
                            "validate line",
                            "New content cannot be empty for insert operation",
                        ),
                    );
                }
            },
            LineChange::Delete { line_number } => {
                if *line_number == 0 {
                    return Err(AicedError::system_error("validate line", "Line number cannot be 0"));
                }
            },
            LineChange::ReplaceRange { start_line, end_line, old_content, .. } => {
                if *start_line == 0 {
                    return Err(AicedError::system_error("validate line", "Start line cannot be 0"));
                }
                if start_line > end_line {
                    return Err(
                        AicedError::system_error(
                            "validate line",
                            "Start line cannot be greater than end line",
                        ),
                    );
                }
                if old_content.len() == 0 {
                    return Err(
                        AicedError::system_error(
                            "validate line",
                            "Old content cannot be empty for replace_range operation",
                        ),
                    );
                }
            },
            LineChange::InsertManyAfter { line_number, new_lines } | LineChange::InsertManyBefore {
                line_number,
                new_lines,
            } => {
                if *line_number == 0 && matches!(self, LineChange::InsertManyBefore { .. }) {
                    return Err(
                        AicedError::system_error(
                            "validate line",
                            "Line number cannot be 0 for insert_many_before operation",
                        ),
                    );
                }
                if new_lines.len() == 0 {
                    return Err(
                        AicedError::system_error(
                            "validate line",
                            "New lines cannot be empty for multi-line insert operation",
                        ),
                    );
                }
                let mut i: usize = 0;
                #[verifier::loop_isolation(false)]
                while i < new_lines.len()
                    invariant
                        i <= new_lines@.len(),
                        first_blank(string_views(new_lines@), 0) == first_blank(
                            string_views(new_lines@),
                            i as int,
                        ),
                    decreases new_lines@.len() - i,
                {
                    let cs = to_chars(new_lines[i].as_str());
                    let t = trim_chars(cs.as_slice());
                    assert(string_views(new_lines@)[i as int] == new_lines@[i as int]@);
                    if t.len() == 0 {
                        let mut msg = String::new();
                        msg.append("Line ");
                        push_decimal(&mut msg, i + 1);
                        msg.append(" in new_lines is empty or whitespace-only");
                        assert(msg@ =~= "Line "@ + decimal((i + 1) as nat)
                            + " in new_lines is empty or whitespace-only"@);
                        return Err(AicedError::system_error("validate line", msg.as_str()));
                    }
                    i = i + 1;
                }
            },
            LineChange::DeleteMany { start_line, end_line } => {
                if *start_line == 0 {
                    return Err(AicedError::system_error("validate line", "Start line cannot be 0"));
                }
                if start_line > end_line {
                    return Err(
                        AicedError::system_error(
                            "validate line",
                            "Start line cannot be greater than end line",
                        ),
                    );
                }
            },
        }
        Ok(())
    }
}

} // verus!
