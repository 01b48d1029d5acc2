//! In-memory snapshot of the files an operation reads and writes.
//!
//! The edit engine works on this snapshot; the application loads the files
//! into it before an operation and writes the changed files back after it.

use vstd::prelude::*;
use crate::text::{to_chars, push_char, chars_eq};
use crate::errors::owned;

verus! {

/// One file as the snapshot holds it.
pub struct StoredFile {
    /// Full path of the file.
    pub path: String,
    /// Whether the file exists.
    pub exists: bool,
    /// Its text, when it could be read.
    pub content: Option<String>,
    /// The message of the error that reading it gave, when it could not be read.
    pub read_error: String,
}

/// The files an operation works on.
pub struct FileStore {
    pub files: Vec<StoredFile>,
}

/// What the snapshot says of one path.
pub struct FileState {
    pub exists: bool,
    pub text: Option<Seq<char>>,
    pub read_error: Seq<char>,
}

/// What the snapshot says of the path `p`; a path it does not hold is missing.
pub open spec fn state_of(files: Seq<StoredFile>, p: Seq<char>) -> FileState {
    FileState {
        exists: file_exists(files, p),
        text: file_text(files, p),
        read_error: file_read_error(files, p),
    }
}

/// The snapshot as a map from every path to its state.
pub open spec fn files_view(files: Seq<StoredFile>) -> Map<Seq<char>, FileState> {
    Map::new(|q: Seq<char>| true, |q: Seq<char>| state_of(files, q))
}

impl View for FileStore {
    type V = Map<Seq<char>, FileState>;

    open spec fn view(&self) -> Map<Seq<char>, FileState> {
        files_view(self.files@)
    }
}

/// The state of a path after writing `text` to it.
pub open spec fn after_write(before: FileState, text: Seq<char>) -> FileState {
    FileState { exists: true, text: Some(text), read_error: before.read_error }
}

/// The state of a path after removing it.
pub open spec fn after_remove(before: FileState) -> FileState {
    FileState { exists: false, text: None, read_error: before.read_error }
}

/// Index of the first file at or after `j` whose path is `p`, or the number of files.
pub open spec fn file_index(files: Seq<StoredFile>, p: Seq<char>, j: int) -> int
    decreases files.len() - j,
{
    if j < 0 || j >= files.len() {
        files.len() as int
    } else if files[j].path@ == p {
        j
    } else {
        file_index(files, p, j + 1)
    }
}

/// Whether the file at `p` exists.
pub open spec fn file_exists(files: Seq<StoredFile>, p: Seq<char>) -> bool {
    let j = file_index(files, p, 0);
    j < files.len() && files[j].exists
}

/// The text of the file at `p`, if it could be read.
pub open spec fn file_text(files: Seq<StoredFile>, p: Seq<char>) -> Option<Seq<char>> {
    let j = file_index(files, p, 0);
    if j < files.len() {
        match files[j].content {
            Some(c) => Some(c@),
            None => None,
        }
    } else {
        None
    }
}

/// The message of the error that reading the file at `p` gives.
pub open spec fn file_read_error(files: Seq<StoredFile>, p: Seq<char>) -> Seq<char> {
    let j = file_index(files, p, 0);
    if j < files.len() {
        files[j].read_error@
    } else {
        Seq::empty()
    }
}

/// The file at `p` now exists and holds `text`; every other file is as it was.
pub open spec fn written(before: Seq<StoredFile>, after: Seq<StoredFile>, p: Seq<char>, text: Seq<char>) -> bool {
    &&& file_exists(after, p)
    &&& file_text(after, p) == Some(text)
    &&& forall|q: Seq<char>| q != p ==> file_exists(after, q) == file_exists(before, q)
        && #[trigger] file_text(after, q) == file_text(before, q) && file_read_error(after, q)
        == file_read_error(before, q)
}

/// The file at `p` no longer exists; every other file is as it was.
pub open spec fn removed(before: Seq<StoredFile>, after: Seq<StoredFile>, p: Seq<char>) -> bool {
    &&& !file_exists(after, p)
    &&& file_text(after, p) is None
    &&& forall|q: Seq<char>| q != p ==> file_exists(after, q) == file_exists(before, q)
        && #[trigger] file_text(after, q) == file_text(before, q) && file_read_error(after, q)
        == file_read_error(before, q)
}

/// `p` with every `"//"` replaced by `"/"`, scanning left to right (`str::replace`).
pub open spec fn collapse_slashes(p: Seq<char>) -> Seq<char>
    decreases p.len(),
{
    if p.len() >= 2 && p[0] == '/' && p[1] == '/' {
        seq!['/'] + collapse_slashes(p.skip(2))
    } else if p.len() == 0 {
        Seq::empty()
    } else {
        seq![p[0]] + collapse_slashes(p.skip(1))
    }
}

/// `format!("{}/{}", repo, file)`.
pub open spec fn joined_path(repo: Seq<char>, file: Seq<char>) -> Seq<char> {
    repo + seq!['/'] + file
}

/// `format!("{}/{}", repo, file).replace("//", "/")`.
pub open spec fn full_path(repo: Seq<char>, file: Seq<char>) -> Seq<char> {
    collapse_slashes(joined_path(repo, file))
}

/// `repo/file`, the path of a file of a repository.
pub fn join_path(repo: &str, file: &str) -> (res: String)
    ensures
        res@ == joined_path(repo@, file@),
{
    let mut s = owned(repo);
    push_char(&mut s, '/');
    s.append(file);
    s
}

/// `repo/file` with doubled slashes collapsed.
pub fn make_full_path(repo: &str, file: &str) -> (res: String)
    ensures
        res@ == full_path(repo@, file@),
{
    let joined = join_path(repo, file);
    let cs = to_chars(joined.as_str());
    let mut res = String::new();
    let mut i: usize = 0;
    assert(cs@.skip(0) =~= cs@);
    assert(res@ + collapse_slashes(cs@.skip(0)) =~= collapse_slashes(cs@));
    while i < cs.len()
        invariant
            i <= cs@.len(),
            cs@ == joined_path(repo@, file@),
            res@ + collapse_slashes(cs@.skip(i as int)) == collapse_slashes(cs@),
        decreases cs@.len() - i,
    {
        let ghost rest = cs@.skip(i as int);
        if i + 1 < cs.len() && cs[i] == '/' && cs[i + 1] == '/' {
            push_char(&mut res, '/');
            assert(rest.skip(2) =~= cs@.skip(i + 2));
            i = i + 2;
        } else {
            push_char(&mut res, cs[i]);
            assert(rest.skip(1) =~= cs@.skip(i + 1));
            i = i + 1;
        }
        assert(res@ + collapse_slashes(cs@.skip(i as int)) =~= collapse_slashes(cs@));
    }
    assert(cs@.skip(i as int) =~= Seq::<char>::empty());
    assert(res@ =~= collapse_slashes(cs@));
    res
}

impl FileStore {
    /// An empty snapshot.
    pub fn new() -> (res: Self)
        ensures
            res.files@.len() == 0,
    {
        FileStore { files: Vec::new() }
    }

    /// Adds a file as it was read: its text, or the message of the read error.
    pub fn add(&mut self, path: String, exists: bool, content: Option<String>, read_error: String)
        ensures
            final(self).files@ == old(self).files@.push(StoredFile { path, exists, content, read_error }),
    {
        self.files.push(StoredFile { path, exists, content, read_error });
    }

    /// Index of the file at `p`, or the number of files.
    fn index_of(&self, p: &str) -> (res: usize)
        ensures
            res == file_index(self.files@, p@, 0),
    {
        let pc = to_chars(p);
        let mut j: usize = 0;
        while j < self.files.len()
            invariant
                j <= self.files@.len(),
                pc@ == p@,
                file_index(self.files@, p@, 0) == file_index(self.files@, p@, j as int),
            decreases self.files@.len() - j,
        {
            let qc = to_chars(self.files[j].path.as_str());
            if chars_eq(qc.as_slice(), pc.as_slice()) {
                return j;
            }
            j = j + 1;
        }
        j
    }

    /// Whether the file at `p` exists.
    pub fn file_is_present(&self, p: &str) -> (res: bool)
        ensures
            res == self@[p@].exists,
    {
        let j = self.index_of(p);
        j < self.files.len() && self.files[j].exists
    }

    /// The text of the file at `p`, or the message of the error that reading it gives.
    pub fn read(&self, p: &str) -> (res: Result<String, String>)
        ensures
            match self@[p@].text {
                Some(t) => res matches Ok(s) && s@ == t,
                None => res matches Err(m) && m@ == self@[p@].read_error,
            },
    {
        let j = self.index_of(p);
        if j < self.files.len() {
            match &self.files[j].content {
                Some(c) => Ok(c.clone()),
                None => Err(self.files[j].read_error.clone()),
            }
        } else {
            proof {
                reveal_strlit("");
            }
            Err(owned(""))
        }
    }

    /// Makes the file at `p` exist and hold `text`.
    pub fn write(&mut self, p: &str, text: String)
        ensures
            final(self)@ == old(self)@.insert(p@, after_write(old(self)@[p@], text@)),
    {
        let j = self.index_of(p);
        let ghost before = self.files@;
        proof {
            lemma_file_index_found(before, p@, 0);
        }
        if j < self.files.len() {
            let read_error = self.files[j].read_error.clone();
            self.files.set(j, StoredFile { path: owned(p), exists: true, content: Some(text), read_error });
            proof {
                lemma_replace_entry(before, j as int, self.files@[j as int], p@);
            }
        } else {
            self.files.push(StoredFile { path: owned(p), exists: true, content: Some(text), read_error: String::new() });
            proof {
                lemma_push_entry(before, self.files@.last(), p@);
                assert(self.files@ == before.push(self.files@.last()));
            }
        }
        proof {
            assert(written(before, self.files@, p@, text@));
            assert(files_view(self.files@) =~= files_view(before).insert(p@, after_write(files_view(before)[p@], text@)));
        }
    }

    /// Makes the file at `p` not exist.
    pub fn remove(&mut self, p: &str)
        ensures
            final(self)@ == old(self)@.insert(p@, after_remove(old(self)@[p@])),
    {
        let j = self.index_of(p);
        let ghost before = self.files@;
        proof {
            lemma_file_index_found(before, p@, 0);
        }
        if j < self.files.len() {
            let read_error = self.files[j].read_error.clone();
            self.files.set(j, StoredFile { path: owned(p), exists: false, content: None, read_error });
            proof {
                lemma_replace_entry(before, j as int, self.files@[j as int], p@);
            }
        }
        proof {
            assert(removed(before, self.files@, p@));
            assert(files_view(self.files@) =~= files_view(before).insert(p@, after_remove(files_view(before)[p@])));
        }
    }
}

/// Replacing the file at index `j` by one with the same path leaves every lookup where it was.
pub proof fn lemma_file_index_update(files: Seq<StoredFile>, j: int, f: StoredFile, q: Seq<char>, i: int)
    requires
        0 <= j < files.len(),
        0 <= i,
        f.path@ == files[j].path@,
        file_index(files, files[j].path@, 0) == j,
    ensures
        file_index(files.update(j, f), q, i) == file_index(files, q, i),
    decreases files.len() - i,
{
    if i < files.len() && files[i].path@ != q {
        lemma_file_index_update(files, j, f, q, i + 1);
    }
}

/// Appending a file does not move the lookup of paths found before it.
pub proof fn lemma_file_index_push(files: Seq<StoredFile>, f: StoredFile, q: Seq<char>, i: int)
    requires
        0 <= i <= files.len(),
    ensures
        file_index(files, q, i) < files.len() ==> file_index(files.push(f), q, i) == file_index(files, q, i),
        file_index(files, q, i) == files.len() ==> file_index(files.push(f), q, i) == if f.path@ == q { files.len() as int } else { (files.len() + 1) as int },
    decreases files.len() - i,
{
    if i < files.len() && files[i].path@ != q {
        lemma_file_index_push(files, f, q, i + 1);
    } else if i == files.len() {
        assert(files.push(f)[i] == f);
        if f.path@ != q {
            assert(file_index(files.push(f), q, i + 1) == files.len() + 1);
        }
    }
}

/// Replacing the entry of `p` changes what is known of `p` only.
pub proof fn lemma_replace_entry(files: Seq<StoredFile>, j: int, f: StoredFile, p: Seq<char>)
    requires
        0 <= j < files.len(),
        file_index(files, p, 0) == j,
        f.path@ == p,
    ensures
        file_index(files.update(j, f), p, 0) == j,
        forall|q: Seq<char>| q != p ==> file_exists(files.update(j, f), q) == file_exists(files, q)
            && #[trigger] file_text(files.update(j, f), q) == file_text(files, q)
            && file_read_error(files.update(j, f), q) == file_read_error(files, q),
{
    lemma_file_index_found(files, p, 0);
    lemma_file_index_update(files, j, f, p, 0);
    assert forall|q: Seq<char>| q != p implies file_exists(files.update(j, f), q) == file_exists(files, q)
        && #[trigger] file_text(files.update(j, f), q) == file_text(files, q)
        && file_read_error(files.update(j, f), q) == file_read_error(files, q) by {
        lemma_file_index_update(files, j, f, q, 0);
        lemma_file_index_found(files, q, 0);
        let k = file_index(files, q, 0);
        if k < files.len() {
            assert(k != j);
        }
    }
}

/// Appending an entry for a path not yet held changes what is known of that path only.
pub proof fn lemma_push_entry(files: Seq<StoredFile>, f: StoredFile, p: Seq<char>)
    requires
        file_index(files, p, 0) == files.len(),
        f.path@ == p,
    ensures
        file_index(files.push(f), p, 0) == files.len(),
        forall|q: Seq<char>| q != p ==> file_exists(files.push(f), q) == file_exists(files, q)
            && #[trigger] file_text(files.push(f), q) == file_text(files, q)
            && file_read_error(files.push(f), q) == file_read_error(files, q),
{
    lemma_file_index_push(files, f, p, 0);
    assert forall|q: Seq<char>| q != p implies file_exists(files.push(f), q) == file_exists(files, q)
        && #[trigger] file_text(files.push(f), q) == file_text(files, q)
        && file_read_error(files.push(f), q) == file_read_error(files, q) by {
        lemma_file_index_push(files, f, q, 0);
        lemma_file_index_found(files, q, 0);
        let k = file_index(files, q, 0);
        if k < files.len() {
            assert(files.push(f)[k] == files[k]);
        }
    }
}

/// A file found by `file_index` has the path looked for.
pub proof fn lemma_file_index_found(files: Seq<StoredFile>, q: Seq<char>, i: int)
    requires
        0 <= i,
    ensures
        i <= file_index(files, q, i) <= files.len() || (i > files.len() && file_index(files, q, i) == files.len()),
        file_index(files, q, i) < files.len() ==> files[file_index(files, q, i)].path@ == q,
    decreases files.len() - i,
{
    if i < files.len() && files[i].path@ != q {
        lemma_file_index_found(files, q, i + 1);
    }
}

} // verus!
