//! Properties that hold across the operations of the library.

use vstd::prelude::*;
use crate::text::{has_char, string_views};
use crate::line_change::{LineChange, LineChangeView, ranges_overlap};
use crate::file_modifier::{
    Applied, apply_single_spec, text_lines, as_i32, key, insert_pos, sorted_order,
    lemma_sorted_order_bounds, lemma_insert_pos_bounds, offset_line, fits_i32, adjusted,
    sim_check, sim_offset, simulate_from, Checked, apply_from, check_change, first_invalid,
    sort_by_line, check_outcome, modify_outcome, Outcome,
};
use crate::report::{distinct_keys, lemma_insert_entry_distinct};
use crate::analysis_parser::kv_entries;
use crate::stack_recommendation_parser::dependency_entries;
use crate::batch::paths_in_order;
use crate::file_change::{FileChange, path_of};
use crate::preview::{byte_len, truncated, truncatable, cut_index, utf8_len};
use crate::errors::{AicedError, max_severity, severity_of, rank};
use crate::store::FileState;
use crate::text::{lines_of, trim, starts_with, parse_usize};
use crate::file_modifier::{relocate, Relocated, search_block, first_block_mismatch, probe};
use crate::scan::glob_matches;
use crate::analysis_parser::action_step;
use crate::cursor::Parsed;

verus! {

/// Two line edits conflict with each other exactly when the second conflicts
/// with the first: overlap of affected ranges is symmetric.
pub proof fn conflict_is_symmetric(a: LineChangeView, b: LineChangeView)
    ensures
        ranges_overlap(a, b) == ranges_overlap(b, a),
{
}

/// Inserting a single line before line `n` and then deleting line `n` gives
/// back the lines as they were; the two offsets cancel out.
pub proof fn insert_before_then_delete_restores(lines: Seq<Seq<char>>, insert: LineChange, delete: LineChange)
    requires
        insert matches LineChange::InsertBefore { line_number, new_content } && !has_char(
            new_content@,
            '\n',
        ) && 1 <= line_number <= lines.len() + 1,
        delete matches LineChange::Delete { line_number } && line_number == key(insert),
    ensures
        apply_single_spec(lines, insert) matches Applied::Done { lines: l2, offset: o1 }
            && apply_single_spec(l2, delete) == (Applied::Done { lines, offset: -1 }) && o1 + (-1)
            == 0,
{
    if let LineChange::InsertBefore { line_number: n, new_content } = insert {
        let l2 = lines.insert(n - 1, new_content@);
        assert(l2.remove(n - 1) =~= lines);
    }
}

/// Replacing a line by the text it already holds leaves the lines as they
/// were, with no offset.
pub proof fn replace_with_same_text_is_identity(lines: Seq<Seq<char>>, replace: LineChange)
    requires
        replace matches LineChange::Replace { line_number, new_content, .. } && 1 <= line_number
            <= lines.len() && new_content@ == lines[line_number - 1] && !has_char(new_content@, '\n'),
    ensures
        apply_single_spec(lines, replace) == (Applied::Done { lines, offset: 0 }),
{
    if let LineChange::Replace { line_number: n, new_content, .. } = replace {
        assert(lines.update(n - 1, new_content@) =~= lines);
    }
}

/// The counts that a change turns into line offsets fit in `i32`.
pub open spec fn counts_fit(c: LineChange) -> bool {
    match c {
        LineChange::Replace { new_content, .. } => text_lines(new_content@).len() <= i32::MAX,
        LineChange::InsertAfter { new_content, .. } => text_lines(new_content@).len() <= i32::MAX,
        LineChange::InsertBefore { new_content, .. } => text_lines(new_content@).len() <= i32::MAX,
        LineChange::InsertManyAfter { new_lines, .. } => new_lines@.len() <= i32::MAX,
        LineChange::InsertManyBefore { new_lines, .. } => new_lines@.len() <= i32::MAX,
        LineChange::Delete { .. } => true,
        LineChange::DeleteMany { start_line, end_line } => end_line - start_line + 1 <= i32::MAX,
        LineChange::ReplaceRange { start_line, end_line, new_content, .. } => new_content@.len()
            <= i32::MAX && end_line - start_line + 1 <= i32::MAX,
    }
}

/// The offset that applying a change reports is the change in the number of
/// lines, whenever the counts involved fit in `i32`; this is what keeps the
/// line numbers of later changes right.
pub proof fn offset_is_change_in_length(lines: Seq<Seq<char>>, c: LineChange)
    requires
        counts_fit(c),
    ensures
        apply_single_spec(lines, c) matches Applied::Done { lines: l2, offset } ==> l2.len()
            == lines.len() + offset,
{
    match c {
        LineChange::Replace { line_number: n, new_content, .. } => {
            let nl = text_lines(new_content@);
            assert(as_i32(nl.len() as int) == nl.len());
        },
        LineChange::InsertAfter { new_content, .. } => {
            let nl = text_lines(new_content@);
            assert(as_i32(nl.len() as int) == nl.len());
        },
        LineChange::InsertBefore { new_content, .. } => {
            let nl = text_lines(new_content@);
            assert(as_i32(nl.len() as int) == nl.len());
        },
        LineChange::InsertManyAfter { new_lines, .. } => {
            assert(string_views(new_lines@).len() == new_lines@.len());
            assert(as_i32(new_lines@.len() as int) == new_lines@.len());
        },
        LineChange::InsertManyBefore { new_lines, .. } => {
            assert(string_views(new_lines@).len() == new_lines@.len());
            assert(as_i32(new_lines@.len() as int) == new_lines@.len());
        },
        LineChange::DeleteMany { start_line: s, end_line: e } => {
            if s <= e {
                assert(as_i32(e - s + 1) == e - s + 1);
            }
        },
        LineChange::ReplaceRange { start_line: s, end_line: e, new_content, .. } => {
            assert(string_views(new_content@).len() == new_content@.len());
            assert(as_i32(new_content@.len() as int) == new_content@.len());
            if s <= e {
                assert(as_i32(e - s + 1) == e - s + 1);
            }
        },
        _ => {},
    }
}

/// Moving a line number by no offset leaves it where it is.
pub proof fn zero_offset_keeps_line(n: usize)
    ensures
        offset_line(n, 0) == Some(n),
{
}

/// The keys of a key/value section never repeat: a key set twice keeps its
/// place and takes the later value.
pub proof fn section_keys_are_distinct(s: Seq<Seq<char>>)
    ensures
        distinct_keys(kv_entries(s)),
        distinct_keys(dependency_entries(s)),
    decreases s.len(),
{
    if s.len() > 0 {
        section_keys_are_distinct(s.drop_last());
        let m = kv_entries(s.drop_last());
        let d = dependency_entries(s.drop_last());
        let t = crate::text::trim(s.last());
        let c = crate::text::find_from(t, ':', 0);
        if c < t.len() {
            lemma_insert_entry_distinct(m, crate::text::trim(t.take(c)), crate::text::trim(t.skip(c + 1)));
            lemma_insert_entry_distinct(
                d,
                crate::text::trim(t.take(c)),
                crate::stack_recommendation_parser::dependency_value(crate::text::trim(t.skip(c + 1))),
            );
        }
    }
}

/// The files of a batch are visited once each: the paths in order of first
/// appearance are distinct, and every change's path is among them.
pub proof fn batch_paths_cover_each_file_once(cs: Seq<FileChange>)
    ensures
        forall|i: int, j: int|
            0 <= i < j < paths_in_order(cs).len() ==> paths_in_order(cs)[i] != paths_in_order(cs)[j],
        forall|i: int| 0 <= i < cs.len() ==> paths_in_order(cs).contains(#[trigger] path_of(cs[i])),
    decreases cs.len(),
{
    if cs.len() > 0 {
        let prev = cs.drop_last();
        batch_paths_cover_each_file_once(prev);
        let r = paths_in_order(prev);
        let p = path_of(cs.last());
        assert forall|i: int| 0 <= i < cs.len() implies paths_in_order(cs).contains(
            #[trigger] path_of(cs[i]),
        ) by {
            if i < cs.len() - 1 {
                assert(prev[i] == cs[i]);
                assert(r.contains(path_of(prev[i])));
                let k = choose|k: int| 0 <= k < r.len() && r[k] == path_of(prev[i]);
                if !r.contains(p) {
                    assert(r.push(p)[k] == r[k]);
                }
            } else {
                if !r.contains(p) {
                    assert(r.push(p)[r.len() as int] == p);
                }
            }
        }
    }
}

/// The number of bytes of two texts one after the other.
pub proof fn lemma_byte_len_concat(a: Seq<char>, b: Seq<char>)
    ensures
        byte_len(a + b) == byte_len(a) + byte_len(b),
    decreases b.len(),
{
    if b.len() > 0 {
        assert((a + b).drop_last() =~= a + b.drop_last());
        lemma_byte_len_concat(a, b.drop_last());
    } else {
        assert(a + b =~= a);
    }
}

/// A line cut for the preview takes no more bytes than the width, or three
/// bytes for the `"..."` alone when the width is smaller.
pub proof fn truncated_line_fits(s: Seq<char>, max_width: nat)
    requires
        truncatable(s, max_width),
    ensures
        byte_len(truncated(s, max_width)) <= if max_width > 3 { max_width } else { 3 },
{
    reveal_strlit("...");
    assert(byte_len("..."@) == 3) by {
        let d1 = seq!['.'];
        let d2 = seq!['.', '.'];
        let d3 = seq!['.', '.', '.'];
        assert("..."@ =~= d3);
        assert(('.' as u32) < 0x80);
        assert(d1.drop_last() =~= Seq::<char>::empty());
        assert(byte_len(Seq::<char>::empty()) == 0);
        assert(utf8_len('.') == 1);
        assert(d1.last() == '.');
        assert(byte_len(d1) == 1);
        assert(d2.drop_last() =~= d1);
        assert(byte_len(d2) == 2);
        assert(d3.drop_last() =~= d2);
    }
    if byte_len(s) > max_width && max_width > 3 {
        let k = cut_index(s, (max_width - 3) as nat);
        lemma_byte_len_concat(s.take(k), "..."@);
    }
}

/// The severity of a group of errors is that of its most severe member: no
/// member is more severe than the group.
pub proof fn group_severity_bounds_members(errs: Seq<AicedError>, k: int)
    requires
        0 <= k <= errs.len(),
    ensures
        forall|i: int| 0 <= i < k ==> rank(#[trigger] severity_of(errs[i])) <= rank(max_severity(errs, k)),
        k > 0 ==> exists|i: int| 0 <= i < k && max_severity(errs, k) == severity_of(errs[i]),
    decreases k,
{
    if k > 0 {
        group_severity_bounds_members(errs, k - 1);
    }
}

/// Sorting a batch of line edits orders them by their line, keeping the
/// order of edits on the same line: the first `n` indices in sorted order
/// have non-decreasing keys, and equal keys keep the order they were given in.
pub proof fn sorted_order_is_ordered(cs: Seq<LineChange>, n: int)
    requires
        0 <= n <= cs.len(),
        cs.len() <= usize::MAX,
    ensures
        forall|i: int, j: int|
            0 <= i < j < n ==> key(cs[sorted_order(cs, n)[i] as int]) <= key(
                cs[sorted_order(cs, n)[j] as int],
            ),
        forall|i: int, j: int|
            0 <= i < j < n && key(cs[sorted_order(cs, n)[i] as int]) == key(
                cs[sorted_order(cs, n)[j] as int],
            ) ==> sorted_order(cs, n)[i] < sorted_order(cs, n)[j],
    decreases n,
{
    if n > 0 {
        sorted_order_is_ordered(cs, n - 1);
        lemma_sorted_order_bounds(cs, n - 1);
        lemma_sorted_order_bounds(cs, n);
        let prev = sorted_order(cs, n - 1);
        let k = key(cs[n - 1]);
        lemma_insert_pos_bounds(cs, prev, k, 0);
        let p = insert_pos(cs, prev, k, 0);
        lemma_insert_pos_split(cs, prev, k, 0);
        let cur = sorted_order(cs, n);
        assert(cur == prev.insert(p, (n - 1) as usize));
        assert(cur[p] == n - 1);
        assert forall|i: int, j: int| 0 <= i < j < n implies key(cs[cur[i] as int]) <= key(cs[cur[j] as int]) by {
            if j < p {
                assert(cur[i] == prev[i] && cur[j] == prev[j]);
            } else if j == p {
                assert(cur[i] == prev[i]);
            } else if i < p {
                assert(cur[i] == prev[i] && cur[j] == prev[j - 1]);
            } else if i == p {
                assert(cur[j] == prev[j - 1]);
            } else {
                assert(cur[i] == prev[i - 1] && cur[j] == prev[j - 1]);
            }
        }
        assert forall|i: int, j: int|
            0 <= i < j < n && key(cs[cur[i] as int]) == key(cs[cur[j] as int]) implies cur[i] < cur[j] by {
            if j < p {
                assert(cur[i] == prev[i] && cur[j] == prev[j]);
            } else if j == p {
                assert(cur[i] == prev[i]);
            } else if i < p {
                assert(cur[i] == prev[i] && cur[j] == prev[j - 1]);
            } else if i == p {
                assert(cur[j] == prev[j - 1]);
            } else {
                assert(cur[i] == prev[i - 1] && cur[j] == prev[j - 1]);
            }
        }
    }
}

/// Before the insertion point every key is at most `k`; the entry at the
/// point, if any, has a greater key.
proof fn lemma_insert_pos_split(cs: Seq<LineChange>, order: Seq<usize>, k: usize, j: int)
    requires
        0 <= j <= order.len(),
        forall|x: int, y: int|
            0 <= x < y < order.len() ==> key(cs[order[x] as int]) <= key(cs[order[y] as int]),
        forall|x: int| 0 <= x < j ==> key(cs[order[x] as int]) <= k,
    ensures
        forall|x: int| 0 <= x < insert_pos(cs, order, k, j) ==> key(cs[order[x] as int]) <= k,
        forall|x: int|
            insert_pos(cs, order, k, j) <= x < order.len() ==> key(cs[order[x] as int]) > k,
    decreases order.len() - j,
{
    if j < order.len() {
        if key(cs[order[j] as int]) > k {
            assert forall|x: int| j <= x < order.len() implies key(cs[order[x] as int]) > k by {
                if x > j {
                    assert(key(cs[order[j] as int]) <= key(cs[order[x] as int]));
                }
            }
        } else {
            lemma_insert_pos_split(cs, order, k, j + 1);
        }
    }
}

/// The texts of a change span a number of lines that fits in `i32`.
pub open spec fn texts_fit(c: LineChange) -> bool {
    match c {
        LineChange::Replace { new_content, .. } => text_lines(new_content@).len() <= i32::MAX,
        LineChange::InsertAfter { new_content, .. } => text_lines(new_content@).len() <= i32::MAX,
        LineChange::InsertBefore { new_content, .. } => text_lines(new_content@).len() <= i32::MAX,
        LineChange::InsertManyAfter { new_lines, .. } => new_lines@.len() <= i32::MAX,
        LineChange::InsertManyBefore { new_lines, .. } => new_lines@.len() <= i32::MAX,
        LineChange::ReplaceRange { new_content, .. } => new_content@.len() <= i32::MAX,
        _ => true,
    }
}

/// A block insertion brings at least one line.
pub open spec fn nonempty_blocks(c: LineChange) -> bool {
    match c {
        LineChange::InsertManyAfter { new_lines, .. } => new_lines@.len() > 0,
        LineChange::InsertManyBefore { new_lines, .. } => new_lines@.len() > 0,
        _ => true,
    }
}

/// Moving a change keeps its texts.
proof fn lemma_adjusted_keeps_texts(c: LineChange, offset: int)
    ensures
        adjusted(c, offset) matches Some(a) ==> (texts_fit(a) == texts_fit(c) && nonempty_blocks(a)
            == nonempty_blocks(c)),
{
}

/// A change that passes the dry run's check on a file of that many lines is
/// not refused when applied, and its offset is the one the dry run expects.
proof fn lemma_checked_change_applies(lines: Seq<Seq<char>>, c: LineChange, i: nat)
    requires
        lines.len() <= i32::MAX,
        texts_fit(c),
        nonempty_blocks(c),
        sim_check(lines.len(), c, i) is None,
    ensures
        !(apply_single_spec(lines, c) is Failed),
        apply_single_spec(lines, c) matches Applied::Done { lines: l2, offset: o } ==> sim_offset(c)
            == Some(o) && l2.len() == lines.len() + o,
{
    assert(counts_fit(c));
    offset_is_change_in_length(lines, c);
    match c {
        LineChange::DeleteMany { start_line: s, end_line: e } => {
            assert(as_i32(e - s + 1) == e - s + 1);
        },
        LineChange::ReplaceRange { start_line: s, end_line: e, .. } => {
            assert(as_i32(e - s + 1) == e - s + 1);
        },
        _ => {},
    }
}

/// Applying changes that passed the dry run is never refused.
proof fn lemma_simulated_changes_apply(lines: Seq<Seq<char>>, cs: Seq<LineChange>, offset: int, i: nat)
    requires
        lines.len() <= i32::MAX,
        simulate_from(lines.len() as usize, cs, offset, i) is Passed,
        forall|k: int| 0 <= k < cs.len() ==> texts_fit(#[trigger] cs[k]) && nonempty_blocks(cs[k]),
    ensures
        !(apply_from(lines, cs, offset) is Failed),
    decreases cs.len(),
{
    if cs.len() > 0 {
        let count = lines.len() as usize;
        lemma_adjusted_keeps_texts(cs[0], offset);
        let c = adjusted(cs[0], offset)->Some_0;
        lemma_checked_change_applies(lines, c, i);
        if let Applied::Done { lines: l2, offset: o } = apply_single_spec(lines, c) {
            if fits_i32(offset + o) {
                assert(as_i32(count as int) == count);
                assert((((as_i32(count as int) + o) as i32) as usize) as int == l2.len());
                let rest = cs.drop_first();
                assert forall|k: int| 0 <= k < rest.len() implies texts_fit(#[trigger] rest[k])
                    && nonempty_blocks(rest[k]) by {
                    assert(rest[k] == cs[k + 1]);
                }
                lemma_simulated_changes_apply(l2, rest, offset + o, i + 1);
            }
        }
    }
}

/// No change at or after `i` is refused by `check_change` when `first_invalid` finds none.
proof fn lemma_first_invalid_none(lines: Seq<Seq<char>>, cs: Seq<LineChange>, i: int)
    requires
        0 <= i,
        first_invalid(lines, cs, i) is None,
    ensures
        forall|k: int| i <= k < cs.len() ==> check_change(lines, #[trigger] cs[k]) is None,
    decreases cs.len() - i,
{
    if i < cs.len() {
        lemma_first_invalid_none(lines, cs, i + 1);
    }
}

/// A set of line changes that `validate_file_modifications` accepts for a file
/// that exists is not refused by `apply_file_modifications` on the same files:
/// validation sees every failure that applying them would meet.
pub proof fn validated_changes_are_not_refused(m: Map<Seq<char>, FileState>, p: Seq<char>, cs: Seq<LineChange>)
    requires
        m[p].exists,
        check_outcome(m, p, cs) is Done,
        m[p].text matches Some(t) ==> lines_of(t).len() <= i32::MAX,
        cs.len() <= usize::MAX,
        forall|k: int| 0 <= k < cs.len() ==> texts_fit(#[trigger] cs[k]),
    ensures
        !(modify_outcome(m, p, cs) is Refused),
{
    let t = m[p].text->Some_0;
    let ls = lines_of(t);
    lemma_first_invalid_none(ls, cs, 0);
    let n = cs.len() as int;
    lemma_sorted_order_bounds(cs, n);
    let sorted = sort_by_line(cs);
    assert forall|k: int| 0 <= k < sorted.len() implies texts_fit(#[trigger] sorted[k])
        && nonempty_blocks(sorted[k]) by {
        let j = sorted_order(cs, n)[k] as int;
        assert(0 <= j < n);
        assert(sorted[k] == cs[j]);
        assert(check_change(ls, cs[j]) is None);
    }
    lemma_simulated_changes_apply(ls, sorted, 0, 0);
}

/// The line numbers of a change are at least 1 and stay within `usize` when
/// moved `k` lines down.
pub open spec fn lines_movable(c: LineChange, k: int) -> bool {
    let fits = |n: usize| 1 <= n && n + k <= usize::MAX;
    match c {
        LineChange::Replace { line_number, .. } => fits(line_number),
        LineChange::InsertAfter { line_number, .. } => fits(line_number),
        LineChange::InsertBefore { line_number, .. } => fits(line_number),
        LineChange::InsertManyAfter { line_number, .. } => fits(line_number),
        LineChange::InsertManyBefore { line_number, .. } => fits(line_number),
        LineChange::Delete { line_number } => fits(line_number),
        LineChange::DeleteMany { start_line, end_line } => fits(start_line) && fits(end_line),
        LineChange::ReplaceRange { start_line, end_line, .. } => fits(start_line) && fits(end_line),
    }
}

/// Moving a line number `k` lines down and back up gives it back.
proof fn lemma_offset_round_trip(n: usize, k: int)
    requires
        0 <= k <= i32::MAX,
        1 <= n,
        n + k <= usize::MAX,
    ensures
        offset_line(n, k) == Some((n + k) as usize),
        offset_line((n + k) as usize, -k) == Some(n),
{
}

/// Moving the lines of a change `k` lines down and then `k` lines up gives
/// back the same change: same kind, same texts, same line numbers.
pub proof fn adjust_round_trip(c: LineChange, k: int)
    requires
        0 <= k <= i32::MAX,
        lines_movable(c, k),
    ensures
        adjusted(c, k) matches Some(a) && adjusted(a, -k) == Some(c),
{
    match c {
        LineChange::Replace { line_number, .. } => lemma_offset_round_trip(line_number, k),
        LineChange::InsertAfter { line_number, .. } => lemma_offset_round_trip(line_number, k),
        LineChange::InsertBefore { line_number, .. } => lemma_offset_round_trip(line_number, k),
        LineChange::InsertManyAfter { line_number, .. } => lemma_offset_round_trip(line_number, k),
        LineChange::InsertManyBefore { line_number, .. } => lemma_offset_round_trip(line_number, k),
        LineChange::Delete { line_number } => lemma_offset_round_trip(line_number, k),
        LineChange::DeleteMany { start_line, end_line } => {
            lemma_offset_round_trip(start_line, k);
            lemma_offset_round_trip(end_line, k);
        },
        LineChange::ReplaceRange { start_line, end_line, .. } => {
            lemma_offset_round_trip(start_line, k);
            lemma_offset_round_trip(end_line, k);
        },
    }
}

/// Inserting a text after line `n` of a file puts its lines directly after
/// line `n`, in order, and inserting it before line `n` puts them directly
/// before it: the lines before stay first and the lines after follow.
pub proof fn insertions_land_next_to_their_line(ls: Seq<Seq<char>>, n: usize, t: String)
    ensures
        n <= ls.len() ==> (apply_single_spec(ls, LineChange::InsertAfter { line_number: n, new_content: t })
            matches Applied::Done { lines: l, .. } && l == ls.subrange(0, n as int) + (if has_char(t@, '\n') {
            lines_of(t@)
        } else {
            seq![t@]
        }) + ls.subrange(n as int, ls.len() as int)),
        1 <= n <= ls.len() + 1 ==> (apply_single_spec(ls, LineChange::InsertBefore { line_number: n, new_content: t })
            matches Applied::Done { lines: l, .. } && l == ls.subrange(0, n - 1) + (if has_char(t@, '\n') {
            lines_of(t@)
        } else {
            seq![t@]
        }) + ls.subrange(n - 1, ls.len() as int)),
{
    if n <= ls.len() {
        assert(ls.take(n as int) =~= ls.subrange(0, n as int));
        assert(ls.skip(n as int) =~= ls.subrange(n as int, ls.len() as int));
        if !has_char(t@, '\n') {
            assert(ls.insert(n as int, t@) =~= ls.subrange(0, n as int) + seq![t@] + ls.subrange(n as int, ls.len() as int));
        }
    }
    if 1 <= n <= ls.len() + 1 {
        assert(ls.take(n - 1) =~= ls.subrange(0, n - 1));
        assert(ls.skip(n - 1) =~= ls.subrange(n - 1, ls.len() as int));
        if !has_char(t@, '\n') {
            assert(ls.insert(n - 1, t@) =~= ls.subrange(0, n - 1) + seq![t@] + ls.subrange(n - 1, ls.len() as int));
        }
    }
}

/// Inserting a block after line `n` puts its lines directly after line `n`,
/// and before line `n` directly before it.
pub proof fn blocks_land_next_to_their_line(ls: Seq<Seq<char>>, n: usize, b: Vec<String>)
    requires
        b@.len() > 0,
    ensures
        n <= ls.len() ==> (apply_single_spec(ls, LineChange::InsertManyAfter { line_number: n, new_lines: b })
            matches Applied::Done { lines: l, .. } && l == ls.subrange(0, n as int) + string_views(b@)
            + ls.subrange(n as int, ls.len() as int)),
        1 <= n <= ls.len() + 1 ==> (apply_single_spec(ls, LineChange::InsertManyBefore { line_number: n, new_lines: b })
            matches Applied::Done { lines: l, .. } && l == ls.subrange(0, n - 1) + string_views(b@)
            + ls.subrange(n - 1, ls.len() as int)),
{
    if n <= ls.len() {
        assert(ls.take(n as int) =~= ls.subrange(0, n as int));
        assert(ls.skip(n as int) =~= ls.subrange(n as int, ls.len() as int));
    }
    if 1 <= n <= ls.len() + 1 {
        assert(ls.take(n - 1) =~= ls.subrange(0, n - 1));
        assert(ls.skip(n - 1) =~= ls.subrange(n - 1, ls.len() as int));
    }
}

/// The old lines `old` stand in the file `ls` from line `m` on, each equal to
/// the file's line once surrounding white space is ignored.
pub open spec fn block_at(ls: Seq<Seq<char>>, m: int, old: Seq<Seq<char>>) -> bool {
    &&& 1 <= m
    &&& m - 1 + old.len() <= ls.len()
    &&& forall|i: int| 0 <= i < old.len() ==> #[trigger] trim(ls[m - 1 + i]) == trim(old[i])
}

/// The block search stops at the first probe from `j` on where the block stands.
proof fn lemma_block_mismatch_past(ls: Seq<Seq<char>>, m: int, old: Seq<Seq<char>>, j: int)
    requires
        0 <= j <= old.len(),
        block_at(ls, m, old),
    ensures
        first_block_mismatch(ls, m, old, j) == old.len(),
    decreases old.len() - j,
{
    if j < old.len() {
        assert(trim(ls[m - 1 + j]) == trim(old[j]));
        lemma_block_mismatch_past(ls, m, old, j + 1);
    }
}

/// Line `i` of the block `old`, placed from line `m`, lies in the file and
/// equals the file's line there, ignoring surrounding white space.
pub open spec fn block_line_matches(ls: Seq<Seq<char>>, m: int, old: Seq<Seq<char>>, i: int) -> bool {
    m - 1 + i < ls.len() && trim(ls[m - 1 + i]) == trim(old[i])
}

/// Where the block search finds no mismatch, the block stands there.
proof fn lemma_block_found(ls: Seq<Seq<char>>, m: int, old: Seq<Seq<char>>, j: int)
    requires
        0 <= j <= old.len(),
        first_block_mismatch(ls, m, old, j) >= old.len(),
    ensures
        forall|i: int| j <= i < old.len() ==> #[trigger] block_line_matches(ls, m, old, i),
    decreases old.len() - j,
{
    if j < old.len() {
        assert(block_line_matches(ls, m, old, j));
        lemma_block_found(ls, m, old, j + 1);
    }
}

/// The probes from `k` up to `k0` of a search around line `s` find a place
/// where the block stands, when it stands at the `k0`-th probe.
proof fn lemma_search_finds(ls: Seq<Seq<char>>, s: usize, span: int, old: Seq<Seq<char>>, k: int, k0: int, d: int)
    requires
        0 <= k <= k0 < 60,
        k0 == 3 * d + 1,
        0 <= d,
        s <= i32::MAX,
        s + d <= i32::MAX,
        old.len() == span + 1,
        0 <= span,
        ls.len() <= usize::MAX,
        block_at(ls, s + d, old),
    ensures
        search_block(ls, s, span, old, k, 60) matches Some(Some(m)) && block_at(ls, m as int, old),
    decreases k0 - k,
{
    let delta: int = if k % 3 == 0 { 0 } else if k % 3 == 1 { k / 3 } else { -(k / 3) };
    assert(k / 3 <= d);
    assert(as_i32(s as int) == s);
    let v = as_i32(s as int) + delta;
    assert(fits_i32(v));
    let m: usize = if v < 1 { 1usize } else { v as usize };
    assert(probe(s, k) == Some(m));
    assert(m <= s + d);
    assert(m + span <= ls.len());
    if k == k0 {
        assert(m == s + d);
        lemma_block_mismatch_past(ls, m as int, old, 0);
    } else if m + span <= ls.len() && first_block_mismatch(ls, m as int, old, 0) >= old.len() {
        lemma_block_found(ls, m as int, old, 0);
        assert forall|i: int| 0 <= i < old.len() implies #[trigger] trim(ls[m - 1 + i]) == trim(old[i]) by {
            assert(block_line_matches(ls, m as int, old, i));
        }
    } else {
        lemma_search_finds(ls, s, span, old, k + 1, k0, d);
    }
}

/// When the old lines of a range replacement stand in the file up to 19
/// lines below its stated start, smart validation finds a place where they
/// stand and moves the replacement there, keeping its texts and its length,
/// instead of refusing it.
pub proof fn shifted_range_is_found(ls: Seq<Seq<char>>, s: usize, e: usize, old: Vec<String>, new: Vec<String>, d: int)
    requires
        s <= e,
        old@.len() == e - s + 1,
        0 <= d <= 19,
        s + d <= i32::MAX,
        ls.len() <= usize::MAX,
        block_at(ls, s + d, string_views(old@)),
    ensures
        relocate(ls, LineChange::ReplaceRange { start_line: s, end_line: e, old_content: old, new_content: new })
            matches Relocated::Found {
            change: LineChange::ReplaceRange { start_line: m, end_line: m2, old_content: o2, new_content: n2 },
        } && block_at(ls, m as int, string_views(old@)) && m2 == m + (e - s) && o2 == old && n2 == new,
{
    lemma_search_finds(ls, s, e - s, string_views(old@), 0, 3 * d + 1, d);
}

/// A change of several lines overlaps a single-line deletion or replacement
/// exactly when that line lies between its first and last line.
pub proof fn range_deletion_conflicts_with_lines_inside(s: usize, e: usize, x: usize, o: String, w: String)
    requires
        s <= e,
        !has_char(w@, '\n'),
    ensures
        ranges_overlap(LineChangeView::DeleteMany { start_line: s, end_line: e }, LineChangeView::Delete { line_number: x })
            <==> s <= x <= e,
        ranges_overlap(
            LineChangeView::DeleteMany { start_line: s, end_line: e },
            LineChangeView::Replace { line_number: x, old_content: o@, new_content: w@ },
        ) <==> s <= x <= e,
{
}

/// A pattern `*` followed by a suffix without `*` that does not start with
/// `.` matches exactly the texts that end with that suffix.
pub proof fn star_suffix_matches_endings(text: Seq<char>, suffix: Seq<char>)
    requires
        !has_char(suffix, '*'),
        suffix.len() > 0 ==> suffix[0] != '.',
    ensures
        glob_matches(text, seq!['*'] + suffix) <==> (suffix.len() <= text.len() && text.subrange(
            text.len() - suffix.len(),
            text.len() as int,
        ) == suffix),
{
    let pattern = seq!['*'] + suffix;
    reveal_strlit("*");
    reveal_strlit("*.");
    assert(pattern.skip(1) =~= suffix);
    if suffix.len() == 0 {
        assert(pattern =~= "*"@);
        assert(text.subrange(text.len() as int, text.len() as int) =~= suffix);
    } else {
        assert(pattern != "*"@) by {
            assert(pattern.len() != "*"@.len());
        }
        assert(!starts_with(pattern, "*."@)) by {
            if starts_with(pattern, "*."@) {
                assert(pattern.take(2)[1] == '.');
                assert(pattern[1] == suffix[0]);
            }
        }
        assert(pattern.last() != '*') by {
            assert(pattern.last() == suffix[suffix.len() - 1]);
        }
        assert(text.skip(text.len() - suffix.len()) =~= text.subrange(text.len() - suffix.len(), text.len() as int));
        if pattern == text {
            assert(text.subrange(text.len() - suffix.len(), text.len() as int) =~= suffix);
        }
    }
}

/// An action block `ACTION: insert_before`, `LINE: n`, `NEW: t` reads as an
/// insertion of `t` before line `n`, and `ACTION: insert_after` likewise as an
/// insertion after it; the reader then stands after the three lines.
pub proof fn insert_actions_read_as_written(ls: Seq<Seq<char>>, p: int, a: Seq<char>, d: Seq<char>, w: Seq<char>, n: usize)
    requires
        0 <= p,
        p + 2 < ls.len(),
        ls[p] == "ACTION:"@ + a,
        ls[p + 1] == "LINE:"@ + d,
        parse_usize(trim(d)) == Some(n),
        ls[p + 2] == "NEW:"@ + w,
    ensures
        trim(a) == "insert_before"@ ==> action_step(ls, p) == (Parsed::Done {
            value: LineChangeView::InsertBefore { line_number: n, new_content: trim(w) },
            at: p + 3,
        }),
        trim(a) == "insert_after"@ ==> action_step(ls, p) == (Parsed::Done {
            value: LineChangeView::InsertAfter { line_number: n, new_content: trim(w) },
            at: p + 3,
        }),
{
    reveal_strlit("ACTION:");
    reveal_strlit("LINE:");
    reveal_strlit("NEW:");
    reveal_strlit("replace");
    reveal_strlit("insert_after");
    reveal_strlit("insert_before");
    assert(ls[p].take(7) =~= "ACTION:"@);
    assert(ls[p].skip(7) =~= a);
    assert(ls[p + 1].take(5) =~= "LINE:"@);
    assert(ls[p + 1].skip(5) =~= d);
    assert(ls[p + 2].take(4) =~= "NEW:"@);
    assert(ls[p + 2].skip(4) =~= w);
    assert("insert_before"@ != "replace"@) by {
        assert("insert_before"@.len() != "replace"@.len());
    }
    assert("insert_before"@ != "insert_after"@) by {
        assert("insert_before"@.len() != "insert_after"@.len());
    }
    assert("insert_after"@ != "replace"@) by {
        assert("insert_after"@.len() != "replace"@.len());
    }
}

} // verus!
