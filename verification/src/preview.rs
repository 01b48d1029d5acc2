//! The text of a change preview: lines cut to a width, and the side-by-side
//! table of a file's lines before and after its line edits.

use vstd::prelude::*;
use crate::errors::owned;
use crate::text::{decimal, to_chars, push_chars, push_char, push_decimal, string_views, str_eq, lines_of};
use crate::line_change::{LineChange, LineChangeView, change_views};
use crate::file_modifier::{FileModifier, sort_by_line, sorted_order, lemma_sorted_order_bounds};

verus! {

/// Writes the previews of changes.
pub struct FileChangeLogger {}

/// The number of bytes of `c` in UTF-8.
pub open spec fn utf8_len(c: char) -> nat {
    if (c as u32) < 0x80 {
        1
    } else if (c as u32) < 0x800 {
        2
    } else if (c as u32) < 0x10000 {
        3
    } else {
        4
    }
}

/// The number of bytes of the text in UTF-8 (`str::len`).
pub open spec fn byte_len(s: Seq<char>) -> nat
    decreases s.len(),
{
    if s.len() == 0 {
        0
    } else {
        byte_len(s.drop_last()) + utf8_len(s.last())
    }
}

/// Longer prefixes take more bytes.
pub proof fn lemma_byte_len_grows(s: Seq<char>, i: int, j: int)
    requires
        0 <= i < j <= s.len(),
    ensures
        byte_len(s.take(i)) < byte_len(s.take(j)),
    decreases j - i,
{
    assert(s.take(j).drop_last() =~= s.take(j - 1));
    if i < j - 1 {
        lemma_byte_len_grows(s, i, j - 1);
    }
}

/// The number of characters whose bytes make up the first `b` bytes, when `b` falls between characters.
pub open spec fn cut_index(s: Seq<char>, b: nat) -> int {
    choose|k: int| 0 <= k <= s.len() && byte_len(s.take(k)) == b
}

/// `b` bytes end between two characters of `s` (`str::is_char_boundary`).
pub open spec fn is_boundary(s: Seq<char>, b: nat) -> bool {
    exists|k: int| 0 <= k <= s.len() && byte_len(s.take(k)) == b
}

/// A line that is cut is cut between two characters.
pub open spec fn truncatable(s: Seq<char>, max_width: nat) -> bool {
    byte_len(s) <= max_width || max_width <= 3 || is_boundary(s, (max_width - 3) as nat)
}

/// The line as it fits in `max_width` bytes: whole, or its first
/// `max_width - 3` bytes followed by `"..."`, or just `"..."`.
pub open spec fn truncated(s: Seq<char>, max_width: nat) -> Seq<char> {
    if byte_len(s) <= max_width {
        s
    } else if max_width > 3 {
        s.take(cut_index(s, (max_width - 3) as nat)) + "..."@
    } else {
        "..."@
    }
}

/// The number of bytes of `c` in UTF-8.
fn char_bytes(c: char) -> (n: usize)
    ensures
        n == utf8_len(c),
{
    let v = c as u32;
    if v < 0x80 {
        1
    } else if v < 0x800 {
        2
    } else if v < 0x10000 {
        3
    } else {
        4
    }
}

impl FileChangeLogger {
    /// Cuts a line to `max_width` bytes, marking the cut with `"..."`.
    pub fn truncate_line(line: &str, max_width: usize) -> (res: String)
        requires
            truncatable(line@, max_width as nat),
        ensures
            res@ == truncated(line@, max_width as nat),
    {
        let cs = to_chars(line);
        let n = cs.len();
        let mut total: usize = 0;
        let mut k: usize = 0;
        while k < n && char_bytes(cs[k]) <= max_width - total
            invariant
                k <= n == line@.len(),
                cs@ == line@,
                total == byte_len(line@.take(k as int)),
                total <= max_width,
            decreases n - k,
        {
            assert(line@.take(k + 1).drop_last() =~= line@.take(k as int));
            total = total + char_bytes(cs[k]);
            k = k + 1;
        }
        if k == n {
            assert(line@.take(n as int) =~= line@);
            return owned(line);
        }
        assert(byte_len(line@) > max_width) by {
            assert(line@.take(k + 1).drop_last() =~= line@.take(k as int));
            if k + 1 < n {
                lemma_byte_len_grows(line@, k + 1, n as int);
            }
            assert(line@.take(n as int) =~= line@);
        }
        if max_width <= 3 {
            return owned("...");
        }
        let target = max_width - 3;
        let ghost kk = cut_index(line@, target as nat);
        proof {
            assert(is_boundary(line@, target as nat));
        }
        let mut acc: usize = 0;
        let mut j: usize = 0;
        while acc < target
            invariant
                j <= kk <= n == line@.len(),
                cs@ == line@,
                acc == byte_len(line@.take(j as int)),
                byte_len(line@.take(kk)) == target,
            decreases kk - j,
        {
            proof {
                if j as int == kk {
                    assert(false);
                }
                assert(line@.take(j + 1).drop_last() =~= line@.take(j as int));
                if j + 1 < kk {
                    lemma_byte_len_grows(line@, j + 1, kk);
                }
            }
            acc = acc + char_bytes(cs[j]);
            j = j + 1;
        }
        proof {
            if (j as int) < kk {
                lemma_byte_len_grows(line@, j as int, kk);
            }
        }
        let mut res = String::new();
        let mut i: usize = 0;
        while i < j
            invariant
                i <= j <= n == line@.len(),
                cs@ == line@,
                res@ == line@.take(i as int),
            decreases j - i,
        {
            push_char(&mut res, cs[i]);
            i = i + 1;
            assert(res@ =~= line@.take(i as int));
        }
        res.append("...");
        res
    }
}

/// `n` copies of `c`.
pub open spec fn fill(n: nat, c: char) -> Seq<char> {
    Seq::new(n, |i: int| c)
}

/// `s` right-aligned in a field of `w` characters filled with `c` (`{:c>w}`).
pub open spec fn align_right(s: Seq<char>, w: nat, c: char) -> Seq<char> {
    if s.len() >= w {
        s
    } else {
        fill((w - s.len()) as nat, c) + s
    }
}

/// `s` left-aligned in a field of `w` characters filled with `c` (`{:c<w}`).
pub open spec fn align_left(s: Seq<char>, w: nat, c: char) -> Seq<char> {
    if s.len() >= w {
        s
    } else {
        s + fill((w - s.len()) as nat, c)
    }
}

/// `s` centred in a field of `w` characters filled with `c` (`{:c^w}`); an odd
/// fill puts the extra character on the right.
pub open spec fn align_center(s: Seq<char>, w: nat, c: char) -> Seq<char> {
    if s.len() >= w {
        s
    } else {
        let pad = (w - s.len()) as nat;
        fill(pad / 2, c) + s + fill((pad - pad / 2) as nat, c)
    }
}

/// One row of the preview table: line number and text before, line number
/// and text after, and the action.
pub open spec fn table_row(a: Seq<char>, b: Seq<char>, c: Seq<char>, d: Seq<char>, action: Seq<char>, w: nat) -> Seq<char> {
    "│ "@ + align_right(a, 4, ' ') + " │ "@ + align_left(b, w, ' ') + " │ "@ + align_right(c, 4, ' ')
        + " │ "@ + align_left(d, w, ' ') + " │ "@ + align_center(action, 18, ' ') + " │"@
}

/// Line `n` of the file, cut to `w`; empty when there is no such line.
pub open spec fn file_line(ls: Seq<Seq<char>>, n: usize, w: nat) -> Seq<char> {
    if 0 < n <= ls.len() {
        truncated(ls[n - 1], w)
    } else {
        Seq::empty()
    }
}

/// A line that is shown cuts at a character.
pub open spec fn file_line_ok(ls: Seq<Seq<char>>, n: usize, w: nat) -> bool {
    0 < n <= ls.len() ==> truncatable(ls[n - 1], w)
}

/// The first `n` rows of a range replacement starting at line `s`.
pub open spec fn range_rows(s: usize, old: Seq<Seq<char>>, new: Seq<Seq<char>>, w: nat, n: int) -> Seq<Seq<char>>
    decreases n,
{
    if n <= 0 {
        Seq::empty()
    } else {
        let i = n - 1;
        range_rows(s, old, new, w, n - 1).push(
            table_row(
                decimal((s + i) as nat),
                if i < old.len() { truncated(old[i], w) } else { Seq::empty() },
                decimal((s + i) as nat),
                if i < new.len() { truncated(new[i], w) } else { Seq::empty() },
                if i == 0 { "💥 BLOCK UPDATE"@ } else { "⚡ ..."@ },
                w,
            ),
        )
    }
}

/// The larger of two lengths.
pub open spec fn larger(a: nat, b: nat) -> nat {
    if a >= b { a } else { b }
}

/// The rows of one change. Edits of several lines, other than range
/// replacements, have no row.
pub open spec fn change_rows(ls: Seq<Seq<char>>, c: LineChangeView, w: nat) -> Seq<Seq<char>> {
    match c {
        LineChangeView::Replace { line_number, old_content, new_content } => seq![
            table_row(
                decimal(line_number as nat),
                truncated(old_content, w),
                decimal(line_number as nat),
                truncated(new_content, w),
                "🔄 MODIFIED"@,
                w,
            ),
        ],
        LineChangeView::InsertAfter { line_number, new_content } => seq![
            table_row(
                decimal(line_number as nat),
                file_line(ls, line_number, w),
                decimal((line_number + 1) as nat),
                truncated(new_content, w),
                "➕ INSERT AFTER"@,
                w,
            ),
        ],
        LineChangeView::InsertBefore { line_number, new_content } => seq![
            table_row(
                decimal(line_number as nat),
                file_line(ls, line_number, w),
                decimal(line_number as nat),
                truncated(new_content, w),
                "⬆️ INSERT BEFORE"@,
                w,
            ),
        ],
        LineChangeView::Delete { line_number } => seq![
            table_row(
                decimal(line_number as nat),
                file_line(ls, line_number, w),
                Seq::empty(),
                Seq::empty(),
                "🗑️ DELETED"@,
                w,
            ),
        ],
        LineChangeView::ReplaceRange { start_line, old_content, new_content, .. } => range_rows(
            start_line,
            old_content,
            new_content,
            w,
            larger(old_content.len(), new_content.len()) as int,
        ),
        _ => Seq::empty(),
    }
}

/// The rows of a change can be written: every cut falls between characters
/// and every line number shown fits in a `usize`.
pub open spec fn change_ok(ls: Seq<Seq<char>>, c: LineChangeView, w: nat) -> bool {
    match c {
        LineChangeView::Replace { old_content, new_content, .. } => truncatable(old_content, w)
            && truncatable(new_content, w),
        LineChangeView::InsertAfter { line_number, new_content } => line_number < usize::MAX
            && file_line_ok(ls, line_number, w) && truncatable(new_content, w),
        LineChangeView::InsertBefore { line_number, new_content } => file_line_ok(ls, line_number, w)
            && truncatable(new_content, w),
        LineChangeView::Delete { line_number } => file_line_ok(ls, line_number, w),
        LineChangeView::ReplaceRange { start_line, old_content, new_content, .. } => start_line
            + larger(old_content.len(), new_content.len()) <= usize::MAX && (forall|i: int|
            0 <= i < old_content.len() ==> truncatable(#[trigger] old_content[i], w)) && (forall|i: int|
            0 <= i < new_content.len() ==> truncatable(#[trigger] new_content[i], w)),
        _ => true,
    }
}

/// The rows of the first `n` changes, in order.
pub open spec fn rows_of(ls: Seq<Seq<char>>, cs: Seq<LineChangeView>, w: nat, n: int) -> Seq<Seq<char>>
    decreases n,
{
    if n <= 0 || n > cs.len() {
        Seq::empty()
    } else {
        rows_of(ls, cs, w, n - 1) + change_rows(ls, cs[n - 1], w)
    }
}

/// The width of the section of one side of the table.
pub open spec fn section_width(w: nat) -> nat {
    4 + 3 + w
}

/// The first line of the table.
pub open spec fn table_header(fp: Seq<char>, w: nat) -> Seq<char> {
    "┌"@ + align_center("🔍 BEFORE ("@ + fp + ")"@, section_width(w), '─') + "┬"@ + align_center(
        "🚀 AFTER"@,
        section_width(w),
        '─',
    ) + "┬"@ + align_center("ACTION"@, 20, '─') + "┐"@
}

/// The last line of the table.
pub open spec fn table_footer(w: nat) -> Seq<char> {
    "└"@ + fill(section_width(w), '─') + "┴"@ + fill(section_width(w), '─') + "┴"@ + fill(20, '─')
        + "┘"@
}

/// The lines of the preview of the changes to the file `fp` whose lines are
/// `ls`: a title, the table header, the rows of the changes in line order, the footer.
pub open spec fn preview_lines(fp: Seq<char>, ls: Seq<Seq<char>>, cs: Seq<LineChange>, w: nat) -> Seq<Seq<char>> {
    let sorted = change_views(sort_by_line(cs));
    seq!["\n🔥 Diff preview for "@ + fp + ":"@, table_header(fp, w)] + rows_of(
        ls,
        sorted,
        w,
        sorted.len() as int,
    ) + seq![table_footer(w)]
}

/// The width of the text columns for a terminal `terminal_width` characters wide.
pub open spec fn column_width_for(terminal_width: nat) -> nat {
    let content = ((terminal_width - 6 - 40) / 2) as nat;
    if content >= 30 { content } else { 30 }
}

/// Appends `n` copies of `c`.
fn push_fill(out: &mut String, n: usize, c: char)
    ensures
        final(out)@ == old(out)@ + fill(n as nat, c),
{
    let mut k: usize = 0;
    while k < n
        invariant
            k <= n,
            out@ == old(out)@ + fill(k as nat, c),
        decreases n - k,
    {
        push_char(out, c);
        k = k + 1;
        assert(out@ =~= old(out)@ + fill(k as nat, c));
    }
}

/// Appends `s` right-aligned in a field of `w` characters.
fn push_right(out: &mut String, s: &[char], w: usize, c: char)
    ensures
        final(out)@ == old(out)@ + align_right(s@, w as nat, c),
{
    if s.len() < w {
        push_fill(out, w - s.len(), c);
    }
    push_chars(out, s);
    assert(out@ =~= old(out)@ + align_right(s@, w as nat, c));
}

/// Appends `s` left-aligned in a field of `w` characters.
fn push_left(out: &mut String, s: &[char], w: usize, c: char)
    ensures
        final(out)@ == old(out)@ + align_left(s@, w as nat, c),
{
    push_chars(out, s);
    if s.len() < w {
        push_fill(out, w - s.len(), c);
    }
    assert(out@ =~= old(out)@ + align_left(s@, w as nat, c));
}

/// Appends `s` centred in a field of `w` characters.
fn push_center(out: &mut String, s: &[char], w: usize, c: char)
    ensures
        final(out)@ == old(out)@ + align_center(s@, w as nat, c),
{
    if s.len() < w {
        let pad = w - s.len();
        push_fill(out, pad / 2, c);
        push_chars(out, s);
        push_fill(out, pad - pad / 2, c);
    } else {
        push_chars(out, s);
    }
    assert(out@ =~= old(out)@ + align_center(s@, w as nat, c));
}

/// One row of the preview table.
fn table_row_text(a: &[char], b: &[char], c: &[char], d: &[char], action: &str, w: usize) -> (res: String)
    ensures
        res@ == table_row(a@, b@, c@, d@, action@, w as nat),
{
    let mut r = owned("│ ");
    push_right(&mut r, a, 4, ' ');
    r.append(" │ ");
    push_left(&mut r, b, w, ' ');
    r.append(" │ ");
    push_right(&mut r, c, 4, ' ');
    r.append(" │ ");
    push_left(&mut r, d, w, ' ');
    r.append(" │ ");
    let act = to_chars(action);
    push_center(&mut r, act.as_slice(), 18, ' ');
    r.append(" │");
    assert(r@ =~= table_row(a@, b@, c@, d@, action@, w as nat));
    r
}

/// The decimal notation of `n`, as characters.
fn numeral(n: usize) -> (res: Vec<char>)
    ensures
        res@ == decimal(n as nat),
{
    let s = crate::text::decimal_string(n);
    to_chars(s.as_str())
}

/// A text cut to the column width, as characters.
fn cut(s: &str, w: usize) -> (res: Vec<char>)
    requires
        truncatable(s@, w as nat),
    ensures
        res@ == truncated(s@, w as nat),
{
    let t = FileChangeLogger::truncate_line(s, w);
    to_chars(t.as_str())
}

/// Line `n` of the file, cut to the column width; empty when there is no such line.
fn file_line_text(lines: &Vec<String>, n: usize, w: usize) -> (res: Vec<char>)
    requires
        file_line_ok(string_views(lines@), n, w as nat),
    ensures
        res@ == file_line(string_views(lines@), n, w as nat),
{
    if n > 0 && n <= lines.len() {
        assert(string_views(lines@)[n - 1] == lines@[n - 1]@);
        cut(lines[n - 1].as_str(), w)
    } else {
        Vec::new()
    }
}

impl FileChangeLogger {
    /// The rows of one change.
    fn change_rows(lines: &Vec<String>, change: &LineChange, w: usize) -> (res: Vec<String>)
        requires
            change_ok(string_views(lines@), change@, w as nat),
        ensures
            string_views(res@) == change_rows(string_views(lines@), change@, w as nat),
    {
        let mut rows: Vec<String> = Vec::new();
        let empty: Vec<char> = Vec::new();
        match change {
            LineChange::Replace { line_number, old_content, new_content } => {
                let n = numeral(*line_number);
                let o = cut(old_content.as_str(), w);
                let x = cut(new_content.as_str(), w);
                rows.push(table_row_text(n.as_slice(), o.as_slice(), n.as_slice(), x.as_slice(), "🔄 MODIFIED", w));
            },
            LineChange::InsertAfter { line_number, new_content } => {
                let n = numeral(*line_number);
                let prev = file_line_text(lines, *line_number, w);
                let n1 = numeral(*line_number + 1);
                let x = cut(new_content.as_str(), w);
                rows.push(table_row_text(n.as_slice(), prev.as_slice(), n1.as_slice(), x.as_slice(), "➕ INSERT AFTER", w));
            },
            LineChange::InsertBefore { line_number, new_content } => {
                let n = numeral(*line_number);
                let cur = file_line_text(lines, *line_number, w);
                let x = cut(new_content.as_str(), w);
                rows.push(table_row_text(n.as_slice(), cur.as_slice(), n.as_slice(), x.as_slice(), "⬆️ INSERT BEFORE", w));
            },
            LineChange::Delete { line_number } => {
                let n = numeral(*line_number);
                let cur = file_line_text(lines, *line_number, w);
                rows.push(table_row_text(n.as_slice(), cur.as_slice(), empty.as_slice(), empty.as_slice(), "🗑️ DELETED", w));
            },
            LineChange::ReplaceRange { start_line, old_content, new_content, .. } => {
                let ghost ov = string_views(old_content@);
                let ghost nv = string_views(new_content@);
                let max_lines = if old_content.len() >= new_content.len() {
                    old_content.len()
                } else {
                    new_content.len()
                };
                let mut i: usize = 0;
                while i < max_lines
                    invariant
                        i <= max_lines == larger(ov.len(), nv.len()),
                        ov == string_views(old_content@),
                        nv == string_views(new_content@),
                        *start_line + max_lines <= usize::MAX,
                        forall|k: int| 0 <= k < ov.len() ==> truncatable(#[trigger] ov[k], w as nat),
                        forall|k: int| 0 <= k < nv.len() ==> truncatable(#[trigger] nv[k], w as nat),
                        string_views(rows@) == range_rows(*start_line, ov, nv, w as nat, i as int),
                    decreases max_lines - i,
                {
                    let n = numeral(*start_line + i);
                    let o = if i < old_content.len() {
                        assert(ov[i as int] == old_content@[i as int]@);
                        cut(old_content[i].as_str(), w)
                    } else {
                        Vec::new()
                    };
                    let x = if i < new_content.len() {
                        assert(nv[i as int] == new_content@[i as int]@);
                        cut(new_content[i].as_str(), w)
                    } else {
                        Vec::new()
                    };
                    let action = if i == 0 { "💥 BLOCK UPDATE" } else { "⚡ ..." };
                    let row = table_row_text(n.as_slice(), o.as_slice(), n.as_slice(), x.as_slice(), action, w);
                    let ghost before = string_views(rows@);
                    rows.push(row);
                    assert(string_views(rows@) =~= before.push(row@));
                    i = i + 1;
                }
            },
            _ => {},
        }
        proof {
            reveal_strlit("");
        }
        assert(string_views(rows@) =~= change_rows(string_views(lines@), change@, w as nat));
        rows
    }

    /// The lines of the preview of `changes` to the file `file_path` whose
    /// lines are `lines`, with text columns `column_width` characters wide:
    /// a title, the table header, a row per line shown, in line order, and the footer.
    pub fn diff_preview_lines(file_path: &str, lines: &Vec<String>, changes: &[LineChange], column_width: usize) -> (res: Vec<String>)
        requires
            column_width + 7 <= usize::MAX,
            forall|i: int| 0 <= i < changes@.len() ==> change_ok(string_views(lines@), #[trigger] changes@[i]@, column_width as nat),
        ensures
            string_views(res@) == preview_lines(file_path@, string_views(lines@), changes@, column_width as nat),
    {
        let w = column_width;
        let sw = 4 + 3 + w;
        let mut out: Vec<String> = Vec::new();
        let mut title = owned("\n🔥 Diff preview for ");
        title.append(file_path);
        title.append(":");
        out.push(title);
        let mut header = owned("┌");
        let mut before_header = owned("🔍 BEFORE (");
        before_header.append(file_path);
        before_header.append(")");
        let bh = to_chars(before_header.as_str());
        push_center(&mut header, bh.as_slice(), sw, '─');
        header.append("┬");
        let ah = to_chars("🚀 AFTER");
        push_center(&mut header, ah.as_slice(), sw, '─');
        header.append("┬");
        let act = to_chars("ACTION");
        push_center(&mut header, act.as_slice(), 20, '─');
        header.append("┐");
        out.push(header);
        let ghost ls = string_views(lines@);
        let order = FileModifier::sort_indices(changes);
        proof {
            lemma_sorted_order_bounds(changes@, changes@.len() as int);
        }
        let ghost sorted = change_views(sort_by_line(changes@));
        let ghost head = string_views(out@);
        let mut k: usize = 0;
        while k < order.len()
            invariant
                k <= order@.len() == changes@.len(),
                order@ == sorted_order(changes@, changes@.len() as int),
                forall|m: int| 0 <= m < order@.len() ==> #[trigger] order@[m] < changes@.len(),
                sorted == change_views(sort_by_line(changes@)),
                sorted.len() == order@.len(),
                ls == string_views(lines@),
                forall|i: int| 0 <= i < changes@.len() ==> change_ok(ls, #[trigger] changes@[i]@, w as nat),
                string_views(out@) == head + rows_of(ls, sorted, w as nat, k as int),
            decreases order@.len() - k,
        {
            let idx = order[k];
            assert(sorted[k as int] == changes@[idx as int]@);
            let rows = Self::change_rows(lines, &changes[idx], w);
            let mut r: usize = 0;
            let ghost before = string_views(out@);
            while r < rows.len()
                invariant
                    r <= rows@.len(),
                    string_views(out@) == before + string_views(rows@).take(r as int),
                decreases rows@.len() - r,
            {
                let row = owned(rows[r].as_str());
                let ghost pre = string_views(out@);
                out.push(row);
                assert(string_views(out@) =~= pre.push(rows@[r as int]@));
                assert(string_views(rows@).take(r + 1) =~= string_views(rows@).take(r as int).push(
                    rows@[r as int]@,
                ));
                r = r + 1;
                assert(string_views(out@) =~= before + string_views(rows@).take(r as int));
            }
            assert(string_views(rows@).take(rows@.len() as int) =~= string_views(rows@));
            k = k + 1;
            assert(string_views(out@) =~= head + rows_of(ls, sorted, w as nat, k as int));
        }
        let mut footer = owned("└");
        push_fill(&mut footer, sw, '─');
        footer.append("┴");
        push_fill(&mut footer, sw, '─');
        footer.append("┴");
        push_fill(&mut footer, 20, '─');
        footer.append("┘");
        let ghost body = string_views(out@);
        out.push(footer);
        assert(string_views(out@) =~= body.push(table_footer(w as nat)));
        assert(string_views(out@) =~= preview_lines(file_path@, ls, changes@, w as nat));
        out
    }

    /// The width of the text columns for a terminal `terminal_width` characters wide.
    pub fn preview_column_width(terminal_width: usize) -> (res: usize)
        requires
            terminal_width >= 46,
        ensures
            res == column_width_for(terminal_width as nat),
    {
        let available_width = terminal_width - 6;
        let total_column_overhead: usize = (4 + 3) * 2 + 20 + 6;
        let content_width = (available_width - total_column_overhead) / 2;
        if content_width >= 30 {
            content_width
        } else {
            30
        }
    }
}

/// One line of the preview of a new file: its number and its text, cut to 90 bytes.
pub open spec fn new_file_row(n: nat, line: Seq<char>) -> Seq<char> {
    "│\x1b[32m➕ "@ + align_right(decimal(n), 4, ' ') + " │ "@ + align_left(truncated(line, 90), 90, ' ')
        + "\x1b[0m│"@
}

/// The rows of the first `n` lines of a new file.
pub open spec fn new_file_rows(ls: Seq<Seq<char>>, n: int) -> Seq<Seq<char>>
    decreases n,
{
    if n <= 0 || n > ls.len() {
        Seq::empty()
    } else {
        new_file_rows(ls, n - 1).push(new_file_row(n as nat, ls[n - 1]))
    }
}

/// The lines of the preview of a new file: a title, a header, a row per line, a footer.
pub open spec fn new_file_preview(fp: Seq<char>, content: Seq<char>) -> Seq<Seq<char>> {
    let ls = lines_of(content);
    seq!["\n✨ New file preview for "@ + fp + ":"@, "┌"@ + align_center("🆕 NEW FILE"@, 100, '─') + "┐"@]
        + new_file_rows(ls, ls.len() as int) + seq!["└"@ + fill(100, '─') + "┘"@]
}

impl FileChangeLogger {
    /// The lines of the preview of a new file at `file_path` holding `content`.
    pub fn new_file_preview_lines(file_path: &str, content: &str) -> (res: Vec<String>)
        requires
            forall|i: int| 0 <= i < lines_of(content@).len() ==> truncatable(#[trigger] lines_of(content@)[i], 90),
        ensures
            string_views(res@) == new_file_preview(file_path@, content@),
    {
        let mut out: Vec<String> = Vec::new();
        let mut title = owned("\n✨ New file preview for ");
        title.append(file_path);
        title.append(":");
        out.push(title);
        let mut header = owned("┌");
        let label = to_chars("🆕 NEW FILE");
        push_center(&mut header, label.as_slice(), 100, '─');
        header.append("┐");
        out.push(header);
        let lines = crate::text::lines_of_str(content);
        let ghost ls = lines_of(content@);
        let ghost head = string_views(out@);
        assert(head =~= seq![
            "\n✨ New file preview for "@ + file_path@ + ":"@,
            "┌"@ + align_center("🆕 NEW FILE"@, 100, '─') + "┐"@,
        ]);
        let mut i: usize = 0;
        while i < lines.len()
            invariant
                i <= lines@.len() == ls.len(),
                ls == lines_of(content@),
                crate::text::views(lines@) == ls,
                forall|k: int| 0 <= k < ls.len() ==> truncatable(#[trigger] ls[k], 90),
                string_views(out@) == head + new_file_rows(ls, i as int),
            decreases lines@.len() - i,
        {
            assert(ls[i as int] == lines@[i as int]@);
            let text = crate::text::from_chars(lines[i].as_slice());
            let cut_text = cut(text.as_str(), 90);
            let num = numeral(i + 1);
            let mut row = owned("│\x1b[32m➕ ");
            push_right(&mut row, num.as_slice(), 4, ' ');
            row.append(" │ ");
            push_left(&mut row, cut_text.as_slice(), 90, ' ');
            row.append("\x1b[0m│");
            let ghost before = string_views(out@);
            out.push(row);
            assert(string_views(out@) =~= before.push(new_file_row((i + 1) as nat, ls[i as int])));
            i = i + 1;
        }
        let mut footer = owned("└");
        push_fill(&mut footer, 100, '─');
        footer.append("┘");
        let ghost body = string_views(out@);
        out.push(footer);
        assert(string_views(out@) =~= body.push("└"@ + fill(100, '─') + "┘"@));
        assert(string_views(out@) =~= new_file_preview(file_path@, content@));
        out
    }
}

} // verus!
