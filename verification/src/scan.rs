//! Which files of a repository a scan passes over: gitignore-style patterns,
//! the default patterns of images and build output, and the list of files
//! that the filtering service keeps.

use vstd::prelude::*;
use crate::errors::owned;
use crate::text::{
    trim, starts_with, has_char, find_from, lines_of, lines_of_str, to_chars, from_chars,
    trim_chars, starts_with_chars, chars_eq, copy_range, find_char, string_views, views, str_eq,
};
use crate::helpers::remove_all;
use crate::store::{full_path, make_full_path};
use crate::config::RepositoryConfig;

verus! {

/// `str::ends_with`.
pub open spec fn ends_with(s: Seq<char>, p: Seq<char>) -> bool {
    p.len() <= s.len() && s.skip(s.len() - p.len()) == p
}

/// `str::contains` for a text.
pub open spec fn contains_text(s: Seq<char>, p: Seq<char>) -> bool {
    exists|i: int| 0 <= i && i + p.len() <= s.len() && #[trigger] s.subrange(i, i + p.len()) == p
}

/// The number of bytes of the text in UTF-8, as `str::len` gives it.
pub open spec fn utf8_bytes(s: Seq<char>) -> usize {
    vstd::utf8::encode_utf8(s).len() as usize
}

/// Whether `text` matches the simple glob `pattern`: `*` matches all,
/// `*.ext` an extension, `prefix*`, `*suffix` and `prefix*suffix` their parts;
/// without a `*`, the pattern matches a text that holds it.
pub open spec fn glob_matches(text: Seq<char>, pattern: Seq<char>) -> bool {
    if pattern == "*"@ {
        true
    } else if pattern == text {
        true
    } else if starts_with(pattern, "*."@) {
        ends_with(text, "."@ + pattern.skip(2))
    } else if pattern.len() > 0 && pattern.last() == '*' {
        starts_with(text, pattern.drop_last())
    } else if pattern.len() > 0 && pattern[0] == '*' {
        ends_with(text, pattern.skip(1))
    } else if has_char(pattern, '*') {
        let s = find_from(pattern, '*', 0);
        let prefix = pattern.take(s);
        let suffix = pattern.skip(s + 1);
        starts_with(text, prefix) && ends_with(text, suffix) && utf8_bytes(text) >= utf8_bytes(prefix)
            + utf8_bytes(suffix)
    } else {
        contains_text(text, pattern)
    }
}

/// Whether a path matches a gitignore-style pattern. `rel` is the path
/// relative to the repository, `name` its last component, `is_dir` whether
/// it is a directory and `ext` the extension of its name.
pub open spec fn pattern_matches(rel: Seq<char>, name: Seq<char>, is_dir: bool, ext: Option<Seq<char>>, pattern: Seq<char>) -> bool {
    if starts_with(pattern, "/"@) {
        let root = pattern.skip(1);
        if root.len() > 0 && root.last() == '/' {
            is_dir && !has_char(rel, '/') && glob_matches(rel, root.drop_last())
        } else {
            !has_char(rel, '/') && glob_matches(rel, root)
        }
    } else if pattern.len() > 0 && pattern.last() == '/' {
        is_dir && (glob_matches(rel, pattern.drop_last()) || glob_matches(name, pattern.drop_last()))
    } else if starts_with(pattern, "*."@) {
        match ext {
            Some(e) => e == pattern.skip(2),
            None => false,
        }
    } else if starts_with(pattern, "."@) && !has_char(pattern, '*') {
        starts_with(name, "."@) && name == pattern
    } else if has_char(pattern, '*') {
        glob_matches(rel, pattern) || glob_matches(name, pattern)
    } else {
        rel == pattern || name == pattern
    }
}

/// Whether a scan passes over the path: a pattern names it or its name, or matches it.
pub open spec fn ignored(rel: Seq<char>, name: Seq<char>, is_dir: bool, ext: Option<Seq<char>>, patterns: Seq<Seq<char>>) -> bool {
    patterns.contains(rel) || patterns.contains(name) || exists|i: int|
        0 <= i < patterns.len() && pattern_matches(rel, name, is_dir, ext, #[trigger] patterns[i])
}

/// The patterns of images, design files and image directories.
pub open spec fn image_patterns() -> Seq<Seq<char>> {
    seq![
        "*.jpg"@, "*.jpeg"@, "*.png"@, "*.gif"@, "*.bmp"@, "*.tiff"@, "*.tif"@, "*.webp"@, "*.ico"@,
        "*.cur"@, "*.raw"@, "*.cr2"@, "*.nef"@, "*.arw"@, "*.dng"@, "*.orf"@, "*.rw2"@, "*.svg"@,
        "*.eps"@, "*.ai"@, "*.pdf"@, "*.psd"@, "*.xcf"@, "*.sketch"@, "*.fig"@, "Thumbs.db"@,
        ".DS_Store"@, "*.tmp"@, "images/"@, "img/"@, "assets/images/"@, "static/images/"@,
        "public/images/"@, "src/assets/"@, "assets/img/"@,
    ]
}

/// The patterns that the lines of a `.gitignore` text give, in order: each
/// line trimmed, without blank lines and comments.
pub open spec fn gitignore_list(ls: Seq<Seq<char>>) -> Seq<Seq<char>>
    decreases ls.len(),
{
    if ls.len() == 0 {
        Seq::empty()
    } else {
        let r = gitignore_list(ls.drop_last());
        let t = trim(ls.last());
        if t.len() > 0 && !starts_with(t, "#"@) {
            r.push(t)
        } else {
            r
        }
    }
}

/// The text the filtering service answers, without code fences, trimmed.
pub open spec fn cleaned_answer(content: Seq<char>) -> Seq<char> {
    trim(remove_all(remove_all(content, "```json"@), "```"@))
}

/// `serde_json::from_str::<Vec<String>>`: the strings of a JSON array of
/// strings, or `None` when the text is not one.
pub uninterp spec fn json_string_array(text: Seq<char>) -> Option<Seq<Seq<char>>>;

/// Reads a JSON array of strings with `serde_json::from_str::<Vec<String>>`;
/// the result is what `json_string_array` names.
#[verifier::external_body]
fn parse_string_array(text: &str) -> (res: Option<Vec<String>>)
    ensures
        match res {
            Some(v) => json_string_array(text@) == Some(string_views(v@)),
            None => json_string_array(text@) is None,
        },
{
    serde_json::from_str::<Vec<String>>(text).ok()
}

/// Looks for the files of a repository to analyse.
pub struct RepoScanner {
    pub repository_config: RepositoryConfig,
    pub max_concurrent_reads: usize,
}

impl RepoScanner {
    /// A scanner of the repository, reading up to ten files at once.
    pub fn new(repository_config: RepositoryConfig) -> (res: Self)
        ensures
            res.repository_config == repository_config,
            res.max_concurrent_reads == 10,
    {
        RepoScanner { repository_config, max_concurrent_reads: 10 }
    }

    /// The patterns of images, design files and image directories.
    pub fn get_default_image_patterns(&self) -> (res: Vec<String>)
        ensures
            string_views(res@) == image_patterns(),
    {
        let items = [
            "*.jpg", "*.jpeg", "*.png", "*.gif", "*.bmp", "*.tiff", "*.tif", "*.webp", "*.ico",
            "*.cur", "*.raw", "*.cr2", "*.nef", "*.arw", "*.dng", "*.orf", "*.rw2", "*.svg",
            "*.eps", "*.ai", "*.pdf", "*.psd", "*.xcf", "*.sketch", "*.fig", "Thumbs.db",
            ".DS_Store", "*.tmp", "images/", "img/", "assets/images/", "static/images/",
            "public/images/", "src/assets/", "assets/img/",
        ];
        let mut res: Vec<String> = Vec::new();
        let mut i: usize = 0;
        while i < 35
            invariant
                i <= 35,
                items@.len() == 35,
                items@ == seq![
                    "*.jpg", "*.jpeg", "*.png", "*.gif", "*.bmp", "*.tiff", "*.tif", "*.webp", "*.ico",
                    "*.cur", "*.raw", "*.cr2", "*.nef", "*.arw", "*.dng", "*.orf", "*.rw2", "*.svg",
                    "*.eps", "*.ai", "*.pdf", "*.psd", "*.xcf", "*.sketch", "*.fig", "Thumbs.db",
                    ".DS_Store", "*.tmp", "images/", "img/", "assets/images/", "static/images/",
                    "public/images/", "src/assets/", "assets/img/",
                ],
                string_views(res@) == items@.take(i as int).map_values(|s: &str| s@),
            decreases 35 - i,
        {
            let ghost before = string_views(res@);
            res.push(owned(items[i]));
            assert(string_views(res@) =~= before.push(items@[i as int]@));
            assert(items@.take(i + 1).map_values(|s: &str| s@) =~= items@.take(i as int).map_values(
                |s: &str| s@,
            ).push(items@[i as int]@));
            i = i + 1;
        }
        assert(items@.take(35).map_values(|s: &str| s@) =~= image_patterns());
        res
    }

    /// Whether `text` matches the simple glob `pattern`.
    pub fn matches_glob(&self, text: &str, pattern: &str) -> (res: bool)
        ensures
            res == glob_matches(text@, pattern@),
    {
        let t = to_chars(text);
        let p = to_chars(pattern);
        proof {
            reveal_strlit("*");
            reveal_strlit("*.");
            reveal_strlit(".");
        }
        if str_eq(pattern, "*") {
            return true;
        }
        if chars_eq(p.as_slice(), t.as_slice()) {
            return true;
        }
        if p.len() >= 2 && p[0] == '*' && p[1] == '.' {
            assert(starts_with(pattern@, "*."@)) by {
                assert(pattern@.take(2) =~= "*."@);
            }
            let mut suffix = owned(".");
            let rest = copy_range(p.as_slice(), 2, p.len());
            crate::text::push_chars(&mut suffix, rest.as_slice());
            let sc = to_chars(suffix.as_str());
            return Self::ends_with_chars(t.as_slice(), sc.as_slice());
        }
        assert(!starts_with(pattern@, "*."@)) by {
            if starts_with(pattern@, "*."@) {
                assert(pattern@.take(2)[0] == '*');
                assert(pattern@.take(2)[1] == '.');
            }
        }
        if p.len() > 0 && p[p.len() - 1] == '*' {
            let prefix = copy_range(p.as_slice(), 0, p.len() - 1);
            assert(prefix@ =~= pattern@.drop_last());
            return starts_with_chars(t.as_slice(), prefix.as_slice());
        }
        if p.len() > 0 && p[0] == '*' {
            let suffix = copy_range(p.as_slice(), 1, p.len());
            assert(suffix@ =~= pattern@.skip(1));
            return Self::ends_with_chars(t.as_slice(), suffix.as_slice());
        }
        proof {
            crate::text::lemma_find_from_bounds(pattern@, '*', 0);
        }
        match find_char(p.as_slice(), '*') {
            Some(s) => {
                let n = p.len();
                assert(s < n);
                let prefix = copy_range(p.as_slice(), 0, s);
                let suffix = copy_range(p.as_slice(), s + 1, n);
                assert(prefix@ =~= pattern@.take(s as int));
                assert(suffix@ =~= pattern@.skip(s + 1));
                assert(has_char(pattern@, '*'));
                let ps = from_chars(prefix.as_slice());
                let ss = from_chars(suffix.as_slice());
                let tl = text.len();
                let pl = ps.as_str().len();
                let sl = ss.as_str().len();
                starts_with_chars(t.as_slice(), prefix.as_slice()) && Self::ends_with_chars(
                    t.as_slice(),
                    suffix.as_slice(),
                ) && tl >= pl && tl - pl >= sl
            },
            None => {
                assert(!has_char(pattern@, '*')) by {
                    if has_char(pattern@, '*') {
                        let k = choose|k: int| 0 <= k < pattern@.len() && pattern@[k] == '*';
                        crate::text::lemma_find_from_bounds(pattern@, '*', 0);
                        assert(find_from(pattern@, '*', 0) <= k);
                    }
                }
                Self::contains_chars(t.as_slice(), p.as_slice())
            },
        }
    }

    /// `str::ends_with` on characters.
    fn ends_with_chars(s: &[char], p: &[char]) -> (res: bool)
        ensures
            res == ends_with(s@, p@),
    {
        if p.len() > s.len() {
            return false;
        }
        let tail = copy_range(s, s.len() - p.len(), s.len());
        assert(tail@ =~= s@.skip(s@.len() - p@.len()));
        chars_eq(tail.as_slice(), p)
    }

    /// `str::contains` on characters.
    pub(crate) fn contains_chars(s: &[char], p: &[char]) -> (res: bool)
        ensures
            res == contains_text(s@, p@),
    {
        if p.len() > s.len() {
            return false;
        }
        let last = s.len() - p.len();
        let mut i: usize = 0;
        while i < last
            invariant
                p@.len() <= s@.len(),
                last == s@.len() - p@.len(),
                i <= last,
                forall|k: int| 0 <= k < i ==> #[trigger] s@.subrange(k, k + p@.len()) != p@,
            decreases last - i,
        {
            let end = s.len() - (last - i);
            assert(end == i + p@.len());
            let part = copy_range(s, i, end);
            if chars_eq(part.as_slice(), p) {
                assert(s@.subrange(i as int, i + p@.len()) == p@);
                return true;
            }
            i = i + 1;
        }
        let part = copy_range(s, last, s.len());
        if chars_eq(part.as_slice(), p) {
            assert(s@.subrange(last as int, last + p@.len()) == p@);
            return true;
        }
        assert forall|k: int| 0 <= k && k + p@.len() <= s@.len() implies #[trigger] s@.subrange(
            k,
            k + p@.len(),
        ) != p@ by {
            assert(k <= last);
        }
        false
    }

    /// Whether the path matches a gitignore-style pattern; `relative_path` is
    /// the path within the repository, `file_name` its last component,
    /// `is_dir` whether it is a directory and `extension` that of its name.
    pub fn matches_gitignore_pattern(
        &self,
        relative_path: &str,
        file_name: &str,
        is_dir: bool,
        extension: Option<&str>,
        pattern: &str,
    ) -> (res: bool)
        ensures
            res == pattern_matches(
                relative_path@,
                file_name@,
                is_dir,
                match extension {
                    Some(e) => Some(e@),
                    None => None,
                },
                pattern@,
            ),
    {
        let p = to_chars(pattern);
        let rel = to_chars(relative_path);
        proof {
            reveal_strlit("/");
            reveal_strlit("*.");
            reveal_strlit(".");
        }
        if p.len() > 0 && p[0] == '/' {
            assert(starts_with(pattern@, "/"@)) by {
                assert(pattern@.take(1) =~= "/"@);
            }
            let root = copy_range(p.as_slice(), 1, p.len());
            assert(root@ =~= pattern@.skip(1));
            let single = find_char(rel.as_slice(), '/').is_none();
            proof {
                crate::text::lemma_find_from_bounds(relative_path@, '/', 0);
                if has_char(relative_path@, '/') {
                    let k = choose|k: int| 0 <= k < relative_path@.len() && relative_path@[k] == '/';
                    assert(find_from(relative_path@, '/', 0) <= k);
                }
            }
            if root.len() > 0 && root[root.len() - 1] == '/' {
                let dir = copy_range(root.as_slice(), 0, root.len() - 1);
                assert(dir@ =~= root@.drop_last());
                let d = from_chars(dir.as_slice());
                return is_dir && single && self.matches_glob(relative_path, d.as_str());
            } else {
                let r = from_chars(root.as_slice());
                return single && self.matches_glob(relative_path, r.as_str());
            }
        }
        assert(!starts_with(pattern@, "/"@)) by {
            if starts_with(pattern@, "/"@) {
                assert(pattern@.take(1)[0] == '/');
            }
        }
        if p.len() > 0 && p[p.len() - 1] == '/' {
            let dir = copy_range(p.as_slice(), 0, p.len() - 1);
            assert(dir@ =~= pattern@.drop_last());
            let d = from_chars(dir.as_slice());
            if is_dir {
                return self.matches_glob(relative_path, d.as_str()) || self.matches_glob(file_name, d.as_str());
            }
            return false;
        }
        if p.len() >= 2 && p[0] == '*' && p[1] == '.' {
            assert(starts_with(pattern@, "*."@)) by {
                assert(pattern@.take(2) =~= "*."@);
            }
            let ext = copy_range(p.as_slice(), 2, p.len());
            assert(ext@ =~= pattern@.skip(2));
            return match extension {
                Some(e) => {
                    let ec = to_chars(e);
                    chars_eq(ec.as_slice(), ext.as_slice())
                },
                None => false,
            };
        }
        assert(!starts_with(pattern@, "*."@)) by {
            if starts_with(pattern@, "*."@) {
                assert(pattern@.take(2)[0] == '*');
                assert(pattern@.take(2)[1] == '.');
            }
        }
        proof {
            crate::text::lemma_find_from_bounds(pattern@, '*', 0);
            if has_char(pattern@, '*') {
                let k = choose|k: int| 0 <= k < pattern@.len() && pattern@[k] == '*';
                assert(find_from(pattern@, '*', 0) <= k);
            }
        }
        let has_star = find_char(p.as_slice(), '*').is_some();
        if p.len() > 0 && p[0] == '.' && !has_star {
            assert(starts_with(pattern@, "."@)) by {
                assert(pattern@.take(1) =~= "."@);
            }
            let name = to_chars(file_name);
            return name.len() > 0 && name[0] == '.' && chars_eq(name.as_slice(), p.as_slice()) && {
                assert(starts_with(file_name@, "."@)) by {
                    assert(file_name@.take(1) =~= "."@);
                }
                true
            };
        }
        assert(!(starts_with(pattern@, "."@) && !has_char(pattern@, '*'))) by {
            if starts_with(pattern@, "."@) {
                assert(pattern@.take(1)[0] == '.');
            }
        }
        if has_star {
            return self.matches_glob(relative_path, pattern) || self.matches_glob(file_name, pattern);
        }
        str_eq(relative_path, pattern) || str_eq(file_name, pattern)
    }

    /// Whether a scan passes over the path: a pattern names it or its name, or matches it.
    pub fn should_ignore_path(
        &self,
        relative_path: &str,
        file_name: &str,
        is_dir: bool,
        extension: Option<&str>,
        patterns: &Vec<String>,
    ) -> (res: bool)
        ensures
            res == ignored(
                relative_path@,
                file_name@,
                is_dir,
                match extension {
                    Some(e) => Some(e@),
                    None => None,
                },
                string_views(patterns@),
            ),
    {
        let ghost ps = string_views(patterns@);
        let ghost ext = match extension {
            Some(e) => Some(e@),
            None => None::<Seq<char>>,
        };
        let mut named = false;
        let mut matched = false;
        let mut i: usize = 0;
        while i < patterns.len()
            invariant
                i <= patterns@.len() == ps.len(),
                ps == string_views(patterns@),
                ext == (match extension {
                    Some(e) => Some(e@),
                    None => None::<Seq<char>>,
                }),
                named <==> exists|k: int| 0 <= k < i && (ps[k] == relative_path@ || ps[k] == file_name@),
                matched <==> exists|k: int| 0 <= k < i && pattern_matches(relative_path@, file_name@, is_dir, ext, #[trigger] ps[k]),
            decreases patterns@.len() - i,
        {
            assert(ps[i as int] == patterns@[i as int]@);
            if str_eq(patterns[i].as_str(), relative_path) || str_eq(patterns[i].as_str(), file_name) {
                named = true;
            }
            let pat = patterns[i].as_str();
            assert(pat@ == ps[i as int]);
            let m = self.matches_gitignore_pattern(relative_path, file_name, is_dir, extension, pat);
            assert(ext == (match extension {
                Some(e) => Some(e@),
                None => None::<Seq<char>>,
            }));
            assert(m == pattern_matches(relative_path@, file_name@, is_dir, ext, ps[i as int]));
            proof {
                if m {
                    assert(pattern_matches(relative_path@, file_name@, is_dir, ext, ps[i as int]));
                }
                if matched {
                    let k = choose|k: int| 0 <= k < i && pattern_matches(relative_path@, file_name@, is_dir, ext, #[trigger] ps[k]);
                    assert(pattern_matches(relative_path@, file_name@, is_dir, ext, ps[k]));
                }
            }
            if m {
                matched = true;
            }
            i = i + 1;
        }
        proof {
            if named {
                let k = choose|k: int| 0 <= k < ps.len() && (ps[k] == relative_path@ || ps[k] == file_name@);
                if ps[k] == relative_path@ {
                    assert(ps.contains(relative_path@));
                } else {
                    assert(ps.contains(file_name@));
                }
            }
            if ps.contains(relative_path@) {
                let k = choose|k: int| 0 <= k < ps.len() && ps[k] == relative_path@;
                assert(named);
            }
            if ps.contains(file_name@) {
                let k = choose|k: int| 0 <= k < ps.len() && ps[k] == file_name@;
                assert(named);
            }
        }
        named || matched
    }

    /// The patterns of a `.gitignore` text: its lines, trimmed, without blank lines and comments.
    pub fn gitignore_patterns(content: &str) -> (res: Vec<String>)
        ensures
            string_views(res@) == gitignore_list(lines_of(content@)),
    {
        let lines = lines_of_str(content);
        let ghost ls = lines_of(content@);
        let mut res: Vec<String> = Vec::new();
        let mut i: usize = 0;
        while i < lines.len()
            invariant
                i <= lines@.len() == ls.len(),
                views(lines@) == ls,
                string_views(res@) == gitignore_list(ls.take(i as int)),
            decreases lines@.len() - i,
        {
            let t = trim_chars(lines[i].as_slice());
            assert(ls[i as int] == lines@[i as int]@);
            assert(ls.take(i + 1).drop_last() =~= ls.take(i as int));
            assert(ls.take(i + 1).last() == ls[i as int]);
            let hash = to_chars("#");
            if t.len() > 0 && !starts_with_chars(t.as_slice(), hash.as_slice()) {
                let ghost before = string_views(res@);
                res.push(from_chars(t.as_slice()));
                assert(string_views(res@) =~= before.push(t@));
            }
            i = i + 1;
        }
        assert(ls.take(ls.len() as int) =~= ls);
        res
    }

    /// The patterns a scan passes over: the default image patterns, `.git/`,
    /// then the patterns of the repository's `.gitignore` text when it could be read.
    pub fn load_patterns(&self, gitignore: Option<&str>) -> (res: Vec<String>)
        ensures
            string_views(res@) == image_patterns().push(".git/"@) + match gitignore {
                Some(c) => gitignore_list(lines_of(c@)),
                None => Seq::empty(),
            },
    {
        let mut res = self.get_default_image_patterns();
        res.push(owned(".git/"));
        let ghost head = string_views(res@);
        assert(head =~= image_patterns().push(".git/"@));
        match gitignore {
            Some(c) => {
                let extra = Self::gitignore_patterns(c);
                let mut i: usize = 0;
                while i < extra.len()
                    invariant
                        i <= extra@.len(),
                        string_views(extra@) == gitignore_list(lines_of(c@)),
                        string_views(res@) == head + string_views(extra@).take(i as int),
                    decreases extra@.len() - i,
                {
                    let ghost before = string_views(res@);
                    res.push(extra[i].clone());
                    assert(string_views(res@) =~= before.push(extra@[i as int]@));
                    assert(string_views(extra@).take(i + 1) =~= string_views(extra@).take(i as int).push(
                        extra@[i as int]@,
                    ));
                    i = i + 1;
                }
                assert(string_views(extra@).take(i as int) =~= string_views(extra@));
            },
            None => {
                assert(string_views(res@) =~= head + Seq::<Seq<char>>::empty());
            },
        }
        res
    }

    /// The full paths of the files that the filtering service kept: its
    /// answer, without code fences, read as a JSON array of paths within the
    /// repository; nothing when the answer is not such an array.
    pub fn filtered_paths(&self, content: &str) -> (res: Vec<String>)
        ensures
            string_views(res@) == match json_string_array(cleaned_answer(content@)) {
                Some(ps) => ps.map_values(|p: Seq<char>| full_path(self.repository_config.path@, p)),
                None => Seq::empty(),
            },
    {
        let c = to_chars(content);
        let fence_json = to_chars("```json");
        let fence = to_chars("```");
        let mut a = String::new();
        crate::helpers::push_removing(&mut a, c.as_slice(), fence_json.as_slice());
        let ac = to_chars(a.as_str());
        let mut b = String::new();
        crate::helpers::push_removing(&mut b, ac.as_slice(), fence.as_slice());
        let bc = to_chars(b.as_str());
        let t = trim_chars(bc.as_slice());
        let cleaned = from_chars(t.as_slice());
        assert(cleaned@ == cleaned_answer(content@));
        match parse_string_array(cleaned.as_str()) {
            Some(list) => self.paths_in_repository(&list),
            None => Vec::new(),
        }
    }

    /// The full paths of files named within the repository.
    pub fn paths_in_repository(&self, list: &Vec<String>) -> (res: Vec<String>)
        ensures
            string_views(res@) == string_views(list@).map_values(
                |p: Seq<char>| full_path(self.repository_config.path@, p),
            ),
    {
        let mut res: Vec<String> = Vec::new();
        let mut i: usize = 0;
        while i < list.len()
            invariant
                i <= list@.len(),
                string_views(res@) == string_views(list@).take(i as int).map_values(
                    |p: Seq<char>| full_path(self.repository_config.path@, p),
                ),
            decreases list@.len() - i,
        {
            let p = make_full_path(self.repository_config.path.as_str(), list[i].as_str());
            let ghost before = string_views(res@);
            res.push(p);
            assert(string_views(res@) =~= before.push(full_path(self.repository_config.path@, list@[i as int]@)));
            assert(string_views(list@).take(i + 1).map_values(
                |p: Seq<char>| full_path(self.repository_config.path@, p),
            ) =~= string_views(list@).take(i as int).map_values(
                |p: Seq<char>| full_path(self.repository_config.path@, p),
            ).push(full_path(self.repository_config.path@, list@[i as int]@)));
            i = i + 1;
        }
        assert(string_views(list@).take(list@.len() as int) =~= string_views(list@));
        res
    }

    /// The name of the file that caches the filtering of this repository, under the home directory.
    pub fn cache_file_name(&self) -> (res: String)
        ensures
            res@ == "ailyzer/"@ + self.repository_config.name@ + ".toml"@,
    {
        let mut s = owned("ailyzer/");
        s.append(self.repository_config.name.as_str());
        s.append(".toml");
        s
    }
}

} // verus!
