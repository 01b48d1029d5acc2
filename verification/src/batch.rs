//! Checking and applying a batch of file changes, file by file.
//!
//! The changes are grouped by the path they name, in the order in which each
//! path first occurs; the changes of a group keep their order.

use vstd::prelude::*;
use crate::errors::{AicedError, AicedResult, owned, message_of};
use crate::text::{str_eq, string_views};
use crate::line_change::{
    LineChange, LineChangeView, change_views, range_computable, ranges_overlap, description,
    validation_failure, is_validate_error,
};
use crate::file_change::{FileChange, path_of};
use crate::store::{FileStore, FileState, full_path, joined_path, after_write, join_path};
use crate::config::RepositoryConfig;
use crate::file_modifier::{
    FileModifier, Outcome, Failure, Applied, Relocated, describes, check_outcome, modify_outcome,
    smart_outcome, delete_outcome, apply_smart, smart_from, sort_by_line, sorted_order, insert_pos,
    key, adjusted, fits_current, relocate, apply_single_spec, offset_sum, entries_insert,
    lemma_same_change_applies_alike, lemma_same_change_relocates_alike, lemma_sorted_order_bounds,
};
use crate::line_change::same_change;

verus! {

/// The findings of a check of a batch of changes.
pub struct ValidationResult {
    /// No error was found.
    pub is_valid: bool,
    /// What prevents the batch from being applied.
    pub errors: Vec<String>,
    /// What deserves attention but does not prevent it.
    pub warnings: Vec<String>,
}

/// The distinct paths of the changes, in the order in which each first occurs.
pub open spec fn paths_in_order(cs: Seq<FileChange>) -> Seq<Seq<char>>
    decreases cs.len(),
{
    if cs.len() == 0 {
        Seq::empty()
    } else {
        let r = paths_in_order(cs.drop_last());
        if r.contains(path_of(cs.last())) {
            r
        } else {
            r.push(path_of(cs.last()))
        }
    }
}

/// The changes that name the path `p`, in order.
pub open spec fn with_path(cs: Seq<FileChange>, p: Seq<char>) -> Seq<FileChange>
    decreases cs.len(),
{
    if cs.len() == 0 {
        Seq::empty()
    } else {
        let r = with_path(cs.drop_last(), p);
        if path_of(cs.last()) == p {
            r.push(cs.last())
        } else {
            r
        }
    }
}

/// The warning about two overlapping line edits.
pub open spec fn conflict_message(fp: Seq<char>, a: LineChangeView, b: LineChangeView) -> Seq<char> {
    "Conflicting line changes in "@ + fp + ": "@ + description(a) + " and "@ + description(b)
}

/// The error about a line edit that is malformed for the reason `r`.
pub open spec fn invalid_message(fp: Seq<char>, r: Seq<char>) -> Seq<char> {
    "Invalid line change in "@ + fp + ": "@ + ("System error during "@ + "validate line"@ + ": "@
        + r)
}

/// The warnings about edit `i` overlapping the edits after it and before `j`.
pub open spec fn conflicts_of(fp: Seq<char>, lcs: Seq<LineChangeView>, i: int, j: int) -> Seq<
    Seq<char>,
>
    decreases j,
{
    if j <= i + 1 || j > lcs.len() || i < 0 {
        Seq::empty()
    } else {
        let r = conflicts_of(fp, lcs, i, j - 1);
        if ranges_overlap(lcs[i], lcs[j - 1]) {
            r.push(conflict_message(fp, lcs[i], lcs[j - 1]))
        } else {
            r
        }
    }
}

/// The warnings about overlapping edits, for the first `n` edits.
pub open spec fn line_warnings(fp: Seq<char>, lcs: Seq<LineChangeView>, n: int) -> Seq<Seq<char>>
    decreases n,
{
    if n <= 0 || n > lcs.len() {
        Seq::empty()
    } else {
        line_warnings(fp, lcs, n - 1) + conflicts_of(fp, lcs, n - 1, lcs.len() as int)
    }
}

/// The errors about malformed edits, for the first `n` edits.
pub open spec fn line_errors(fp: Seq<char>, lcs: Seq<LineChangeView>, n: int) -> Seq<Seq<char>>
    decreases n,
{
    if n <= 0 || n > lcs.len() {
        Seq::empty()
    } else {
        let r = line_errors(fp, lcs, n - 1);
        match validation_failure(lcs[n - 1]) {
            Some(x) => r.push(invalid_message(fp, x)),
            None => r,
        }
    }
}

/// The errors about one change of the file `fp`; `exists` tells whether the file exists.
pub open spec fn change_errors(exists: bool, fp: Seq<char>, c: FileChange) -> Seq<Seq<char>> {
    match c {
        FileChange::ModifyFile { line_changes, .. } => if !exists {
            seq!["File does not exist: "@ + fp]
        } else {
            line_errors(fp, change_views(line_changes@), line_changes@.len() as int)
        },
        _ => Seq::empty(),
    }
}

/// The warnings about one change of the file `fp`.
pub open spec fn change_warnings(exists: bool, fp: Seq<char>, c: FileChange) -> Seq<Seq<char>> {
    match c {
        FileChange::ModifyFile { line_changes, .. } => if !exists {
            Seq::empty()
        } else {
            line_warnings(fp, change_views(line_changes@), line_changes@.len() as int)
        },
        FileChange::CreateFile { .. } => if exists {
            seq!["File already exists, will be overwritten: "@ + fp]
        } else {
            Seq::empty()
        },
        FileChange::DeleteFile { .. } => if !exists {
            seq!["File does not exist, cannot delete: "@ + fp]
        } else {
            Seq::empty()
        },
    }
}

/// Whether the file `fp` of the repository at `repo` exists in the snapshot.
pub open spec fn exists_in(m: Map<Seq<char>, FileState>, repo: Seq<char>, fp: Seq<char>) -> bool {
    m[joined_path(repo, fp)].exists
}

/// The errors about the changes `gs` of the file `fp`, in order.
pub open spec fn group_errors(m: Map<Seq<char>, FileState>, repo: Seq<char>, fp: Seq<char>, gs: Seq<FileChange>) -> Seq<Seq<char>>
    decreases gs.len(),
{
    if gs.len() == 0 {
        Seq::empty()
    } else {
        group_errors(m, repo, fp, gs.drop_last()) + change_errors(exists_in(m, repo, fp), fp, gs.last())
    }
}

/// The warnings about the changes `gs` of the file `fp`, in order.
pub open spec fn group_warnings(m: Map<Seq<char>, FileState>, repo: Seq<char>, fp: Seq<char>, gs: Seq<FileChange>) -> Seq<Seq<char>>
    decreases gs.len(),
{
    if gs.len() == 0 {
        Seq::empty()
    } else {
        group_warnings(m, repo, fp, gs.drop_last()) + change_warnings(
            exists_in(m, repo, fp),
            fp,
            gs.last(),
        )
    }
}

/// The errors of a batch, group by group for the first `k` paths.
pub open spec fn batch_errors(m: Map<Seq<char>, FileState>, repo: Seq<char>, cs: Seq<FileChange>, ps: Seq<Seq<char>>, k: int) -> Seq<Seq<char>>
    decreases k,
{
    if k <= 0 || k > ps.len() {
        Seq::empty()
    } else {
        batch_errors(m, repo, cs, ps, k - 1) + group_errors(m, repo, ps[k - 1], with_path(cs, ps[k - 1]))
    }
}

/// The warnings of a batch, group by group for the first `k` paths.
pub open spec fn batch_warnings(m: Map<Seq<char>, FileState>, repo: Seq<char>, cs: Seq<FileChange>, ps: Seq<Seq<char>>, k: int) -> Seq<Seq<char>>
    decreases k,
{
    if k <= 0 || k > ps.len() {
        Seq::empty()
    } else {
        batch_warnings(m, repo, cs, ps, k - 1) + group_warnings(
            m,
            repo,
            ps[k - 1],
            with_path(cs, ps[k - 1]),
        )
    }
}

/// Every pair of line edits that a check compares has computable ranges: the
/// edits of a modification of an existing file, when there are two or more.
pub open spec fn batch_computable(m: Map<Seq<char>, FileState>, repo: Seq<char>, cs: Seq<FileChange>) -> bool {
    forall|i: int|
        0 <= i < cs.len() ==> match #[trigger] cs[i] {
            FileChange::ModifyFile { file_path, line_changes, .. } => exists_in(m, repo, file_path@)
                && line_changes@.len() >= 2 ==> forall|k: int|
                0 <= k < line_changes@.len() ==> range_computable(#[trigger] line_changes@[k]@),
            _ => true,
        }
}

/// The two sequences hold the same edits, position by position.
pub open spec fn same_changes(a: Seq<LineChange>, b: Seq<LineChange>) -> bool {
    a.len() == b.len() && forall|i: int| 0 <= i < a.len() ==> same_change(#[trigger] a[i], b[i])
}

/// Where a key goes in a sorted prefix depends only on the keys of the edits.
proof fn lemma_insert_pos_alike(a: Seq<LineChange>, b: Seq<LineChange>, order: Seq<usize>, k: usize, j: int)
    requires
        same_changes(a, b),
        forall|x: int| 0 <= x < order.len() ==> #[trigger] order[x] < a.len(),
    ensures
        insert_pos(a, order, k, j) == insert_pos(b, order, k, j),
    decreases order.len() - j,
{
    if 0 <= j < order.len() {
        let x = order[j] as int;
        lemma_same_change_applies_alike(Seq::empty(), a[x], b[x]);
        lemma_insert_pos_alike(a, b, order, k, j + 1);
    }
}

/// The sorted order depends only on the keys of the edits.
proof fn lemma_sorted_order_alike(a: Seq<LineChange>, b: Seq<LineChange>, n: int)
    requires
        same_changes(a, b),
        0 <= n <= a.len(),
    ensures
        sorted_order(a, n) == sorted_order(b, n),
    decreases n,
{
    if n > 0 {
        lemma_sorted_order_alike(a, b, n - 1);
        lemma_sorted_order_bounds(a, n - 1);
        let prev = sorted_order(a, n - 1);
        lemma_same_change_applies_alike(Seq::empty(), a[n - 1], b[n - 1]);
        lemma_insert_pos_alike(a, b, prev, key(a[n - 1]), 0);
    }
}

/// Smart application gives the same result for the same edits.
proof fn lemma_smart_from_alike(
    lines: Seq<Seq<char>>,
    a: Seq<LineChange>,
    b: Seq<LineChange>,
    e: Seq<(usize, i32)>,
    i: nat,
)
    requires
        same_changes(a, b),
    ensures
        smart_from(lines, a, e, i) == smart_from(lines, b, e, i),
    decreases a.len(),
{
    if a.len() > 0 {
        lemma_same_change_applies_alike(lines, a[0], b[0]);
        let orig = key(a[0]);
        match offset_sum(e, orig, 0, 0) {
            None => {},
            Some(cum) => {
                assert(adjusted(a[0], cum) is Some <==> adjusted(b[0], cum) is Some);
                if adjusted(a[0], cum) is Some {
                    let x = adjusted(a[0], cum)->0;
                    let y = adjusted(b[0], cum)->0;
                    assert(same_change(x, y));
                    lemma_same_change_relocates_alike(lines, x, y);
                    lemma_same_change_applies_alike(lines, x, y);
                    let tx: Option<LineChange> = if fits_current(lines, x) {
                        Some(x)
                    } else {
                        match relocate(lines, x) {
                            Relocated::Found { change } => Some(change),
                            _ => None,
                        }
                    };
                    let ty: Option<LineChange> = if fits_current(lines, y) {
                        Some(y)
                    } else {
                        match relocate(lines, y) {
                            Relocated::Found { change } => Some(change),
                            _ => None,
                        }
                    };
                    if !fits_current(lines, x) && relocate(lines, x) is Found {
                        lemma_same_change_applies_alike(
                            lines,
                            relocate(lines, x)->change,
                            relocate(lines, y)->change,
                        );
                    }
                    assert(tx is Some <==> ty is Some);
                    if tx is Some {
                        assert(apply_single_spec(lines, tx->0) == apply_single_spec(lines, ty->0));
                    }
                    assert(same_changes(a.drop_first(), b.drop_first()));
                    match apply_single_spec(lines, x) {
                        _ => {},
                    }
                    if tx is Some {
                        match apply_single_spec(lines, tx->0) {
                            Applied::Done { lines: l2, offset: o } => {
                                lemma_smart_from_alike(
                                    l2,
                                    a.drop_first(),
                                    b.drop_first(),
                                    crate::file_modifier::entries_insert(e, orig, o as i32),
                                    i + 1,
                                );
                            },
                            _ => {},
                        }
                    }
                }
            },
        }
    }
}

/// The outcome of smart application depends only on the edits.
pub proof fn lemma_smart_outcome_alike(m: Map<Seq<char>, FileState>, p: Seq<char>, a: Seq<LineChange>, b: Seq<LineChange>)
    requires
        same_changes(a, b),
    ensures
        smart_outcome(m, p, a) == smart_outcome(m, p, b),
{
    lemma_sorted_order_alike(a, b, a.len() as int);
    lemma_sorted_order_bounds(a, a.len() as int);
    let sa = sort_by_line(a);
    let sb = sort_by_line(b);
    assert(same_changes(sa, sb));
    assert forall|l: Seq<Seq<char>>| #[trigger] apply_smart(l, a) == apply_smart(l, b) by {
        lemma_smart_from_alike(l, sa, sb, Seq::empty(), 0);
    }
}

/// What applying one change to the files gives: a modification is checked
/// and dry-run first, then applied; a creation writes the file; a deletion
/// removes it.
#[verifier::opaque]
pub open spec fn change_outcome(m: Map<Seq<char>, FileState>, repo: Seq<char>, c: FileChange) -> Outcome {
    match c {
        FileChange::ModifyFile { file_path, line_changes, .. } => {
            let p = full_path(repo, file_path@);
            match check_outcome(m, p, line_changes@) {
                Outcome::Done { .. } => modify_outcome(m, p, line_changes@),
                other => other,
            }
        },
        FileChange::CreateFile { file_path, content, .. } => {
            let p = full_path(repo, file_path@);
            Outcome::Done { files: m.insert(p, after_write(m[p], content@)) }
        },
        FileChange::DeleteFile { file_path, .. } => delete_outcome(m, full_path(repo, file_path@)),
    }
}

/// The changes that create or delete a file, in order.
pub open spec fn others(cs: Seq<FileChange>) -> Seq<FileChange>
    decreases cs.len(),
{
    if cs.len() == 0 {
        Seq::empty()
    } else if cs.last() is ModifyFile {
        others(cs.drop_last())
    } else {
        others(cs.drop_last()).push(cs.last())
    }
}

/// The line edits of all the modifications, in order.
pub open spec fn all_line_changes(cs: Seq<FileChange>) -> Seq<LineChange>
    decreases cs.len(),
{
    if cs.len() == 0 {
        Seq::empty()
    } else {
        match cs.last() {
            FileChange::ModifyFile { line_changes, .. } => all_line_changes(cs.drop_last())
                + line_changes@,
            _ => all_line_changes(cs.drop_last()),
        }
    }
}

/// The outcome of applying changes to the files, with the number applied.
pub enum FilesOutcome {
    /// All applied; `count` changes or line edits were applied.
    Done { files: Map<Seq<char>, FileState>, count: nat },
    /// One was refused; `files` are the files as the applied ones left them.
    Refused { failure: Failure, files: Map<Seq<char>, FileState> },
    Panics,
}

/// Applying the changes `os` one after the other, stopping at the first refusal.
pub open spec fn others_outcome(m: Map<Seq<char>, FileState>, repo: Seq<char>, os: Seq<FileChange>) -> FilesOutcome
    decreases os.len(),
{
    if os.len() == 0 {
        FilesOutcome::Done { files: m, count: 0 }
    } else {
        match others_outcome(m, repo, os.drop_last()) {
            FilesOutcome::Done { files, count } => match change_outcome(files, repo, os.last()) {
                Outcome::Done { files: f2 } => FilesOutcome::Done { files: f2, count: count + 1 },
                Outcome::Refused { failure } => FilesOutcome::Refused { failure, files },
                Outcome::Panics => FilesOutcome::Panics,
            },
            other => other,
        }
    }
}

/// Once a prefix of the changes stops, the whole sequence stops the same way.
pub proof fn lemma_others_stop(m: Map<Seq<char>, FileState>, repo: Seq<char>, os: Seq<FileChange>, i: int)
    requires
        0 <= i <= os.len(),
        !(others_outcome(m, repo, os.take(i)) is Done),
    ensures
        others_outcome(m, repo, os) == others_outcome(m, repo, os.take(i)),
    decreases os.len() - i,
{
    if i < os.len() {
        assert(os.take(i + 1).drop_last() =~= os.take(i));
        lemma_others_stop(m, repo, os, i + 1);
    } else {
        assert(os.take(i) =~= os);
    }
}

/// Applying the changes of one file: creations and deletions first, in order,
/// then all the line edits of its modifications at once, with relocation.
pub open spec fn single_file_outcome(m: Map<Seq<char>, FileState>, repo: Seq<char>, fp: Seq<char>, cs: Seq<FileChange>) -> FilesOutcome {
    match others_outcome(m, repo, others(cs)) {
        FilesOutcome::Done { files, count } => {
            let lcs = all_line_changes(cs);
            if lcs.len() == 0 {
                FilesOutcome::Done { files, count }
            } else {
                match smart_outcome(files, full_path(repo, fp), lcs) {
                    Outcome::Done { files: f2 } => FilesOutcome::Done {
                        files: f2,
                        count: count + lcs.len(),
                    },
                    Outcome::Refused { failure } => FilesOutcome::Refused { failure, files },
                    Outcome::Panics => FilesOutcome::Panics,
                }
            }
        },
        other => other,
    }
}

/// The changes behind the references.
pub open spec fn deref_all(v: Seq<&FileChange>) -> Seq<FileChange> {
    v.map_values(|r: &FileChange| *r)
}

/// The creations and deletions of a prefix are a prefix of all of them.
pub proof fn lemma_others_prefix(cs: Seq<FileChange>, i: int)
    requires
        0 <= i <= cs.len(),
    ensures
        others(cs.take(i)).len() <= others(cs).len(),
        others(cs).take(others(cs.take(i)).len() as int) == others(cs.take(i)),
    decreases cs.len() - i,
{
    if i < cs.len() {
        lemma_others_prefix(cs, i + 1);
        assert(cs.take(i + 1).drop_last() =~= cs.take(i));
        let a = others(cs.take(i));
        let b = others(cs.take(i + 1));
        assert(b.take(a.len() as int) =~= a);
        assert(others(cs).take(a.len() as int) =~= others(cs).take(b.len() as int).take(a.len() as int));
    } else {
        assert(cs.take(i) =~= cs);
        assert(others(cs).take(others(cs).len() as int) =~= others(cs));
    }
}

/// One more change of a file: a modification leaves the creations and
/// deletions as they were; another change is applied after them, and once one
/// is refused or panics, so is the whole sequence.
pub proof fn lemma_others_step(
    m0: Map<Seq<char>, FileState>,
    repo: Seq<char>,
    cs: Seq<FileChange>,
    i: int,
    before: Map<Seq<char>, FileState>,
    count: nat,
)
    requires
        0 <= i < cs.len(),
        others_outcome(m0, repo, others(cs.take(i))) == (FilesOutcome::Done { files: before, count }),
    ensures
        cs[i] is ModifyFile ==> others(cs.take(i + 1)) == others(cs.take(i)),
        !(cs[i] is ModifyFile) ==> others_outcome(m0, repo, others(cs.take(i + 1))) == match change_outcome(before, repo, cs[i]) {
            Outcome::Done { files } => FilesOutcome::Done { files, count: count + 1 },
            Outcome::Refused { failure } => FilesOutcome::Refused { failure, files: before },
            Outcome::Panics => FilesOutcome::Panics,
        },
        !(others_outcome(m0, repo, others(cs.take(i + 1))) is Done) ==> others_outcome(m0, repo, others(cs))
            == others_outcome(m0, repo, others(cs.take(i + 1))),
{
    assert(cs.take(i + 1).drop_last() =~= cs.take(i));
    assert(cs.take(i + 1).last() == cs[i]);
    if !(cs[i] is ModifyFile) {
        assert(others(cs.take(i + 1)).drop_last() =~= others(cs.take(i)));
    }
    lemma_others_prefix(cs, i + 1);
    let os = others(cs);
    let j = others(cs.take(i + 1)).len() as int;
    assert(os.take(j) == others(cs.take(i + 1)));
    if !(others_outcome(m0, repo, others(cs.take(i + 1))) is Done) {
        lemma_others_stop(m0, repo, os, j);
    }
}

/// Applying the groups of the first `k` paths in turn; a group that is
/// refused is passed over, keeping what it applied. `None` when a group panics.
pub open spec fn grouped_outcome(m: Map<Seq<char>, FileState>, repo: Seq<char>, cs: Seq<FileChange>, ps: Seq<Seq<char>>, k: int) -> Option<(Map<Seq<char>, FileState>, nat)>
    decreases k,
{
    if k <= 0 || k > ps.len() {
        Some((m, 0))
    } else {
        match grouped_outcome(m, repo, cs, ps, k - 1) {
            Some((files, count)) => match single_file_outcome(files, repo, ps[k - 1], with_path(cs, ps[k - 1])) {
                FilesOutcome::Done { files: f2, count: n } => Some((f2, count + n)),
                FilesOutcome::Refused { files: f2, .. } => Some((f2, count)),
                FilesOutcome::Panics => None,
            },
            None => None,
        }
    }
}

/// The number of changes applied, when nothing panicked.
pub open spec fn applied_count(o: Option<(Map<Seq<char>, FileState>, nat)>) -> nat {
    match o {
        Some((_, c)) => c,
        None => 0,
    }
}

/// The files after the groups, when nothing panicked.
pub open spec fn applied_files(o: Option<(Map<Seq<char>, FileState>, nat)>) -> Map<Seq<char>, FileState> {
    match o {
        Some((f, _)) => f,
        None => Map::empty(),
    }
}

/// The count of the groups applied so far never exceeds the final count.
pub proof fn lemma_grouped_monotone(m: Map<Seq<char>, FileState>, repo: Seq<char>, cs: Seq<FileChange>, ps: Seq<Seq<char>>, k: int, n: int)
    requires
        0 <= k <= n <= ps.len(),
        grouped_outcome(m, repo, cs, ps, n) is Some,
    ensures
        grouped_outcome(m, repo, cs, ps, k) is Some,
        applied_count(grouped_outcome(m, repo, cs, ps, k)) <= applied_count(grouped_outcome(m, repo, cs, ps, n)),
    decreases n - k,
{
    if k < n {
        lemma_grouped_monotone(m, repo, cs, ps, k, n - 1);
    }
}

impl FileModifier {
    /// The distinct paths of the changes, in the order in which each first occurs.
    fn paths_in_order(changes: &[FileChange]) -> (res: Vec<String>)
        ensures
            string_views(res@) == paths_in_order(changes@),
    {
        let mut paths: Vec<String> = Vec::new();
        let mut i: usize = 0;
        while i < changes.len()
            invariant
                i <= changes@.len(),
                string_views(paths@) == paths_in_order(changes@.take(i as int)),
            decreases changes@.len() - i,
        {
            let p = changes[i].get_file_path();
            let mut found = false;
            let mut j: usize = 0;
            while j < paths.len()
                invariant
                    j <= paths@.len(),
                    found <==> exists|k: int| 0 <= k < j && string_views(paths@)[k] == p@,
                decreases paths@.len() - j,
            {
                assert(string_views(paths@)[j as int] == paths@[j as int]@);
                if str_eq(paths[j].as_str(), p) {
                    found = true;
                }
                j = j + 1;
            }
            assert(changes@.take(i + 1).drop_last() =~= changes@.take(i as int));
            assert(changes@.take(i + 1).last() == changes@[i as int]);
            proof {
                let sv = string_views(paths@);
                if found {
                    let k = choose|k: int| 0 <= k < paths@.len() && sv[k] == p@;
                    assert(sv.contains(p@));
                } else {
                    assert(!sv.contains(p@));
                }
            }
            if !found {
                let ghost before = string_views(paths@);
                paths.push(owned(p));
                assert(string_views(paths@) =~= before.push(p@));
            }
            i = i + 1;
        }
        assert(changes@.take(changes@.len() as int) =~= changes@);
        paths
    }

    /// Appends the errors and warnings about one change of the file `fp`;
    /// `exists` tells whether the file exists.
    fn change_messages(
        change: &FileChange,
        fp: &str,
        exists: bool,
        errors: &mut Vec<String>,
        warnings: &mut Vec<String>,
    )
        requires
            match *change {
                FileChange::ModifyFile { line_changes, .. } => exists && line_changes@.len() >= 2
                    ==> forall|k: int|
                    0 <= k < line_changes@.len() ==> range_computable(#[trigger] line_changes@[k]@),
                _ => true,
            },
        ensures
            string_views(final(errors)@) == string_views(old(errors)@) + change_errors(exists, fp@, *change),
            string_views(final(warnings)@) == string_views(old(warnings)@) + change_warnings(
                exists,
                fp@,
                *change,
            ),
    {
        match change {
            FileChange::ModifyFile { line_changes, .. } => {
                if !exists {
                    let mut m = owned("File does not exist: ");
                    m.append(fp);
                    let ghost before = string_views(errors@);
                    errors.push(m);
                    assert(string_views(errors@) =~= before + seq!["File does not exist: "@ + fp@]);
                    assert(string_views(warnings@) =~= string_views(old(warnings)@) + Seq::<Seq<char>>::empty());
                    return;
                }
                let ghost lv = change_views(line_changes@);
                let n = line_changes.len();
                let mut i: usize = 0;
                assert(string_views(errors@) =~= string_views(old(errors)@) + line_errors(fp@, lv, 0));
                assert(string_views(warnings@) =~= string_views(old(warnings)@) + line_warnings(fp@, lv, 0));
                while i < n
                    invariant
                        i <= n == line_changes@.len() == lv.len(),
                        lv == change_views(line_changes@),
                        n >= 2 ==> forall|k: int|
                            0 <= k < line_changes@.len() ==> range_computable(#[trigger] line_changes@[k]@),
                        string_views(errors@) == string_views(old(errors)@) + line_errors(fp@, lv, i as int),
                        string_views(warnings@) == string_views(old(warnings)@) + line_warnings(
                            fp@,
                            lv,
                            i as int,
                        ),
                    decreases n - i,
                {
                    let mut j: usize = i + 1;
                    assert(conflicts_of(fp@, lv, i as int, j as int) =~= Seq::<Seq<char>>::empty());
                    while j < n
                        invariant
                            i < j <= n == line_changes@.len() == lv.len(),
                            lv == change_views(line_changes@),
                            n >= 2 ==> forall|k: int|
                                0 <= k < line_changes@.len() ==> range_computable(
                                    #[trigger] line_changes@[k]@,
                                ),
                            string_views(warnings@) == string_views(old(warnings)@) + line_warnings(
                                fp@,
                                lv,
                                i as int,
                            ) + conflicts_of(fp@, lv, i as int, j as int),
                        decreases n - j,
                    {
                        assert(lv[i as int] == line_changes@[i as int]@);
                        assert(lv[j as int] == line_changes@[j as int]@);
                        if line_changes[i].conflicts_with(&line_changes[j]) {
                            let mut m = owned("Conflicting line changes in ");
                            m.append(fp);
                            m.append(": ");
                            let d1 = line_changes[i].get_description();
                            m.append(d1.as_str());
                            m.append(" and ");
                            let d2 = line_changes[j].get_description();
                            m.append(d2.as_str());
                            let ghost before = string_views(warnings@);
                            warnings.push(m);
                            assert(string_views(warnings@) =~= before.push(
                                conflict_message(fp@, lv[i as int], lv[j as int]),
                            ));
                        }
                        j = j + 1;
                    }
                    assert(lv[i as int] == line_changes@[i as int]@);
                    match line_changes[i].validate() {
                        Ok(_) => {},
                        Err(e) => {
                            let mut m = owned("Invalid line change in ");
                            m.append(fp);
                            m.append(": ");
                            let um = e.user_message();
                            m.append(um.as_str());
                            let ghost before = string_views(errors@);
                            errors.push(m);
                            assert(string_views(errors@) =~= before.push(
                                invalid_message(fp@, validation_failure(lv[i as int])->0),
                            ));
                        },
                    }
                    i = i + 1;
                }
            },
            FileChange::CreateFile { .. } => {
                if exists {
                    let mut m = owned("File already exists, will be overwritten: ");
                    m.append(fp);
                    let ghost before = string_views(warnings@);
                    warnings.push(m);
                    assert(string_views(warnings@) =~= before + seq![
                        "File already exists, will be overwritten: "@ + fp@,
                    ]);
                } else {
                    assert(string_views(warnings@) =~= string_views(old(warnings)@) + Seq::<Seq<char>>::empty());
                }
                assert(string_views(errors@) =~= string_views(old(errors)@) + Seq::<Seq<char>>::empty());
            },
            FileChange::DeleteFile { .. } => {
                if !exists {
                    let mut m = owned("File does not exist, cannot delete: ");
                    m.append(fp);
                    let ghost before = string_views(warnings@);
                    warnings.push(m);
                    assert(string_views(warnings@) =~= before + seq![
                        "File does not exist, cannot delete: "@ + fp@,
                    ]);
                } else {
                    assert(string_views(warnings@) =~= string_views(old(warnings)@) + Seq::<Seq<char>>::empty());
                }
                assert(string_views(errors@) =~= string_views(old(errors)@) + Seq::<Seq<char>>::empty());
            },
        }
    }

    /// Checks a batch of changes against the files of the repository, file by
    /// file: errors for what prevents applying it, warnings for the rest.
    pub fn validate_changes_batch(
        store: &FileStore,
        repository_config: &RepositoryConfig,
        file_changes: &[FileChange],
    ) -> (res: AicedResult<ValidationResult>)
        requires
            batch_computable(store@, repository_config.path@, file_changes@),
        ensures
            res matches Ok(r) && string_views(r.errors@) == batch_errors(
                store@,
                repository_config.path@,
                file_changes@,
                paths_in_order(file_changes@),
                paths_in_order(file_changes@).len() as int,
            ) && string_views(r.warnings@) == batch_warnings(
                store@,
                repository_config.path@,
                file_changes@,
                paths_in_order(file_changes@),
                paths_in_order(file_changes@).len() as int,
            ) && r.is_valid == (r.errors@.len() == 0),
    {
        let paths = Self::paths_in_order(file_changes);
        let ghost ps = string_views(paths@);
        let ghost repo = repository_config.path@;
        let ghost cs = file_changes@;
        let mut errors: Vec<String> = Vec::new();
        let mut warnings: Vec<String> = Vec::new();
        let mut k: usize = 0;
        assert(string_views(errors@) =~= batch_errors(store@, repo, cs, ps, 0));
        assert(string_views(warnings@) =~= batch_warnings(store@, repo, cs, ps, 0));
        while k < paths.len()
            invariant
                k <= paths@.len() == ps.len(),
                ps == string_views(paths@),
                ps == paths_in_order(cs),
                cs == file_changes@,
                repo == repository_config.path@,
                batch_computable(store@, repo, cs),
                string_views(errors@) == batch_errors(store@, repo, cs, ps, k as int),
                string_views(warnings@) == batch_warnings(store@, repo, cs, ps, k as int),
            decreases paths@.len() - k,
        {
            let fp = paths[k].as_str();
            assert(fp@ == ps[k as int]);
            let full = join_path(repository_config.path.as_str(), fp);
            let exists = store.file_is_present(full.as_str());
            let ghost e0 = string_views(errors@);
            let ghost w0 = string_views(warnings@);
            let mut i: usize = 0;
            assert(cs.take(0) =~= Seq::<FileChange>::empty());
            assert(e0 =~= e0 + group_errors(store@, repo, fp@, with_path(cs.take(0), fp@)));
            assert(w0 =~= w0 + group_warnings(store@, repo, fp@, with_path(cs.take(0), fp@)));
            while i < file_changes.len()
                invariant
                    i <= file_changes@.len() == cs.len(),
                    cs == file_changes@,
                    repo == repository_config.path@,
                    batch_computable(store@, repo, cs),
                    exists == store@[joined_path(repo, fp@)].exists,
                    string_views(errors@) == e0 + group_errors(store@, repo, fp@, with_path(cs.take(i as int), fp@)),
                    string_views(warnings@) == w0 + group_warnings(store@, repo, fp@, with_path(cs.take(i as int), fp@)),
                decreases file_changes@.len() - i,
            {
                let ghost pre = with_path(cs.take(i as int), fp@);
                assert(cs.take(i + 1).drop_last() =~= cs.take(i as int));
                assert(cs.take(i + 1).last() == cs[i as int]);
                if str_eq(file_changes[i].get_file_path(), fp) {
                    assert(with_path(cs.take(i + 1), fp@) == pre.push(cs[i as int]));
                    assert(pre.push(cs[i as int]).drop_last() =~= pre);
                    let ghost eb = string_views(errors@);
                    let ghost wb = string_views(warnings@);
                    Self::change_messages(&file_changes[i], fp, exists, &mut errors, &mut warnings);
                    assert(string_views(errors@) =~= e0 + group_errors(store@, repo, fp@, pre.push(cs[i as int])));
                    assert(string_views(warnings@) =~= w0 + group_warnings(store@, repo, fp@, pre.push(cs[i as int])));
                } else {
                    assert(with_path(cs.take(i + 1), fp@) == pre);
                }
                i = i + 1;
            }
            assert(cs.take(cs.len() as int) =~= cs);
            assert(string_views(errors@) =~= batch_errors(store@, repo, cs, ps, k + 1));
            assert(string_views(warnings@) =~= batch_warnings(store@, repo, cs, ps, k + 1));
            k = k + 1;
        }
        let is_valid = errors.len() == 0;
        Ok(ValidationResult { is_valid, errors, warnings })
    }

    /// Applies one change to the files of the repository: a modification is
    /// checked and dry-run, then applied; a creation writes the file; a
    /// deletion removes it.
    pub fn apply_change_with_logging(
        store: &mut FileStore,
        repository_config: &RepositoryConfig,
        file_change: &FileChange,
    ) -> (res: AicedResult<()>)
        requires
            !(change_outcome(old(store)@, repository_config.path@, *file_change) is Panics),
        ensures
            match change_outcome(old(store)@, repository_config.path@, *file_change) {
                Outcome::Done { files } => res is Ok && final(store)@ == files,
                Outcome::Refused { failure } => res matches Err(e) && describes(e, failure)
                    && final(store)@ == old(store)@,
                Outcome::Panics => false,
            },
    {
        proof {
            reveal(change_outcome);
        }
        let repo_path = repository_config.path.as_str();
        match file_change {
            FileChange::ModifyFile { file_path, line_changes, .. } => {
                match Self::validate_file_modifications(
                    store,
                    repo_path,
                    file_path.as_str(),
                    line_changes.as_slice(),
                ) {
                    Ok(_) => {},
                    Err(e) => return Err(e),
                }
                Self::apply_file_modifications(store, repo_path, file_path.as_str(), line_changes.as_slice())
            },
            FileChange::CreateFile { file_path, content, .. } => {
                Self::create_file(store, repo_path, file_path.as_str(), content.as_str())
            },
            FileChange::DeleteFile { file_path, .. } => {
                Self::delete_file(store, repo_path, file_path.as_str())
            },
        }
    }

    /// Applies the creations and deletions among the changes, in order,
    /// stopping at the first refusal; returns how many were applied.
    fn apply_creations_and_deletions(
        store: &mut FileStore,
        repository_config: &RepositoryConfig,
        changes: &Vec<&FileChange>,
    ) -> (res: AicedResult<usize>)
        requires
            !(others_outcome(old(store)@, repository_config.path@, others(deref_all(changes@))) is Panics),
        ensures
            match others_outcome(old(store)@, repository_config.path@, others(deref_all(changes@))) {
                FilesOutcome::Done { files, count } => res matches Ok(n) && n == count && final(store)@ == files
                    && count <= changes@.len(),
                FilesOutcome::Refused { failure, files } => res matches Err(e) && describes(e, failure)
                    && final(store)@ == files,
                FilesOutcome::Panics => false,
            },
    {
        let ghost m0 = store@;
        let ghost repo = repository_config.path@;
        let ghost cs = deref_all(changes@);
        let mut applied_count: usize = 0;
        let mut i: usize = 0;
        assert(cs.take(0) =~= Seq::<FileChange>::empty());
        while i < changes.len()
            invariant
                i <= changes@.len() == cs.len(),
                cs == deref_all(changes@),
                repo == repository_config.path@,
                m0 == old(store)@,
                !(others_outcome(m0, repo, others(cs)) is Panics),
                others_outcome(m0, repo, others(cs.take(i as int))) == (FilesOutcome::Done {
                    files: store@,
                    count: applied_count as nat,
                }),
                applied_count <= i,
            decreases changes@.len() - i,
        {
            let change: &FileChange = changes[i];
            assert(*change == cs[i as int]);
            let ghost before = store@;
            proof {
                lemma_others_step(m0, repo, cs, i as int, before, applied_count as nat);
            }
            match change {
                FileChange::ModifyFile { .. } => {},
                _ => {
                    match Self::apply_change_with_logging(store, repository_config, change) {
                        Ok(_) => {
                            applied_count = applied_count + 1;
                        },
                        Err(e) => {
                            assert(!(cs[i as int] is ModifyFile));
                            assert(change_outcome(before, repo, cs[i as int]) is Refused);
                            assert(others_outcome(m0, repo, others(cs.take(i + 1))) is Refused);
                            assert(others_outcome(m0, repo, others(cs)) == others_outcome(
                                m0,
                                repo,
                                others(cs.take(i + 1)),
                            ));
                            assert(store@ == before);
                            assert(describes(e, change_outcome(before, repo, cs[i as int])->failure));
                            assert(others_outcome(m0, repo, others(cs)) == (FilesOutcome::Refused {
                                failure: change_outcome(before, repo, cs[i as int])->failure,
                                files: before,
                            }));
                            return Err(e);
                        },
                    }
                },
            }
            i = i + 1;
        }
        assert(cs.take(cs.len() as int) =~= cs);
        Ok(applied_count)
    }

    /// Applies the changes of one file: creations and deletions first, in
    /// order, stopping at the first refusal; then all the line edits of its
    /// modifications at once, relocating an edit that does not fit. Returns
    /// the number of changes and line edits applied.
    fn apply_changes_to_single_file(
        store: &mut FileStore,
        repository_config: &RepositoryConfig,
        file_path: &str,
        changes: &Vec<&FileChange>,
    ) -> (res: AicedResult<usize>)
        requires
            !(single_file_outcome(old(store)@, repository_config.path@, file_path@, deref_all(changes@)) is Panics),
            single_file_outcome(old(store)@, repository_config.path@, file_path@, deref_all(changes@)) matches FilesOutcome::Done { count, .. } ==> count <= usize::MAX,
        ensures
            match single_file_outcome(old(store)@, repository_config.path@, file_path@, deref_all(changes@)) {
                FilesOutcome::Done { files, count } => res matches Ok(n) && n == count && final(store)@ == files,
                FilesOutcome::Refused { failure, files } => res matches Err(e) && describes(e, failure)
                    && final(store)@ == files,
                FilesOutcome::Panics => false,
            },
    {
        let ghost repo = repository_config.path@;
        let ghost cs = deref_all(changes@);
        let mut applied_count = match Self::apply_creations_and_deletions(store, repository_config, changes) {
            Ok(n) => n,
            Err(e) => return Err(e),
        };
        let mut modify_changes: Vec<LineChange> = Vec::new();
        let mut i: usize = 0;
        while i < changes.len()
            invariant
                i <= changes@.len() == cs.len(),
                cs == deref_all(changes@),
                same_changes(modify_changes@, all_line_changes(cs.take(i as int))),
            decreases changes@.len() - i,
        {
            let change: &FileChange = changes[i];
            assert(*change == cs[i as int]);
            assert(cs.take(i + 1).drop_last() =~= cs.take(i as int));
            assert(cs.take(i + 1).last() == cs[i as int]);
            match change {
                FileChange::ModifyFile { line_changes, .. } => {
                    let ghost pre = all_line_changes(cs.take(i as int));
                    let mut k: usize = 0;
                    while k < line_changes.len()
                        invariant
                            k <= line_changes@.len(),
                            same_changes(modify_changes@, pre + line_changes@.take(k as int)),
                        decreases line_changes@.len() - k,
                    {
                        let d = line_changes[k].duplicate();
                        let ghost before = modify_changes@;
                        modify_changes.push(d);
                        assert((pre + line_changes@.take(k + 1)) =~= (pre + line_changes@.take(k as int)).push(line_changes@[k as int]));
                        k = k + 1;
                    }
                    assert(line_changes@.take(line_changes@.len() as int) =~= line_changes@);
                },
                _ => {},
            }
            i = i + 1;
        }
        assert(cs.take(cs.len() as int) =~= cs);
        if modify_changes.len() > 0 {
            let ghost files = store@;
            proof {
                lemma_smart_outcome_alike(files, full_path(repo, file_path@), modify_changes@, all_line_changes(cs));
            }
            match Self::apply_file_modifications_with_smart_validation(
                store,
                repository_config.path.as_str(),
                file_path,
                modify_changes.as_slice(),
            ) {
                Ok(_) => {
                    applied_count = applied_count + modify_changes.len();
                },
                Err(e) => return Err(e),
            }
        }
        Ok(applied_count)
    }

    /// Applies the changes file by file, in the order in which each file is
    /// first named. A file whose changes are refused is passed over, keeping
    /// what was applied to it. Returns the number of changes and line edits applied.
    pub fn apply_changes_grouped_by_file(
        store: &mut FileStore,
        repository_config: &RepositoryConfig,
        file_changes: &[FileChange],
    ) -> (res: AicedResult<usize>)
        requires
            grouped_outcome(
                old(store)@,
                repository_config.path@,
                file_changes@,
                paths_in_order(file_changes@),
                paths_in_order(file_changes@).len() as int,
            ) is Some,
            applied_count(
                grouped_outcome(
                    old(store)@,
                    repository_config.path@,
                    file_changes@,
                    paths_in_order(file_changes@),
                    paths_in_order(file_changes@).len() as int,
                ),
            ) <= usize::MAX,
        ensures
            res matches Ok(n) && n == applied_count(
                grouped_outcome(
                    old(store)@,
                    repository_config.path@,
                    file_changes@,
                    paths_in_order(file_changes@),
                    paths_in_order(file_changes@).len() as int,
                ),
            ),
            final(store)@ == applied_files(
                grouped_outcome(
                    old(store)@,
                    repository_config.path@,
                    file_changes@,
                    paths_in_order(file_changes@),
                    paths_in_order(file_changes@).len() as int,
                ),
            ),
    {
        let ghost m0 = store@;
        let ghost repo = repository_config.path@;
        let ghost cs = file_changes@;
        let paths = Self::paths_in_order(file_changes);
        let ghost ps = string_views(paths@);
        let ghost total = ps.len() as int;
        let mut applied: usize = 0;
        let mut k: usize = 0;
        while k < paths.len()
            invariant
                k <= paths@.len() == ps.len() == total,
                ps == string_views(paths@),
                ps == paths_in_order(cs),
                cs == file_changes@,
                repo == repository_config.path@,
                grouped_outcome(m0, repo, cs, ps, total) is Some,
                applied_count(grouped_outcome(m0, repo, cs, ps, total)) <= usize::MAX,
                grouped_outcome(m0, repo, cs, ps, k as int) == Some((store@, applied as nat)),
            decreases paths@.len() - k,
        {
            let fp = paths[k].as_str();
            assert(fp@ == ps[k as int]);
            let mut group: Vec<&FileChange> = Vec::new();
            let mut i: usize = 0;
            assert(cs.take(0) =~= Seq::<FileChange>::empty());
            assert(deref_all(group@) =~= with_path(cs.take(0), fp@));
            while i < file_changes.len()
                invariant
                    i <= file_changes@.len() == cs.len(),
                    cs == file_changes@,
                    deref_all(group@) == with_path(cs.take(i as int), fp@),
                decreases file_changes@.len() - i,
            {
                assert(cs.take(i + 1).drop_last() =~= cs.take(i as int));
                assert(cs.take(i + 1).last() == cs[i as int]);
                if str_eq(file_changes[i].get_file_path(), fp) {
                    let ghost before = deref_all(group@);
                    group.push(&file_changes[i]);
                    assert(deref_all(group@) =~= before.push(cs[i as int]));
                }
                i = i + 1;
            }
            assert(cs.take(cs.len() as int) =~= cs);
            proof {
                lemma_grouped_monotone(m0, repo, cs, ps, k + 1, total);
            }
            match Self::apply_changes_to_single_file(store, repository_config, fp, &group) {
                Ok(n) => {
                    applied = applied + n;
                },
                Err(_) => {},
            }
            k = k + 1;
        }
        Ok(applied)
    }
}

} // verus!
