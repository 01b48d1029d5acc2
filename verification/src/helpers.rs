//! Defaults of the configuration, time spans, the prompt that presents files
//! to the language model, and the messages that ask it to continue.

use vstd::prelude::*;
use crate::errors::owned;
use crate::text::{
    decimal, lines_of, lines_of_str, push_chars, push_decimal, to_chars, starts_with,
    starts_with_chars, copy_range, push_char, string_views,
};

verus! {

/// Default values of the configuration.
pub struct ConfigHelper;

/// Literal strings as owned strings.
fn owned_all(items: &[&str]) -> (res: Vec<String>)
    ensures
        res@.len() == items@.len(),
        forall|i: int| 0 <= i < items@.len() ==> #[trigger] res@[i]@ == items@[i]@,
{
    let mut res: Vec<String> = Vec::new();
    let mut i: usize = 0;
    while i < items.len()
        invariant
            i <= items@.len(),
            res@.len() == i,
            forall|k: int| 0 <= k < i ==> #[trigger] res@[k]@ == items@[k]@,
        decreases items@.len() - i,
    {
        res.push(owned(items[i]));
        i = i + 1;
    }
    res
}

impl ConfigHelper {
    /// Paths left out of a scan.
    pub fn default_exclude_patterns() -> (res: Vec<String>)
        ensures
            string_views(res@) == seq![
                "tests/"@, "test/"@, "benches/"@, "examples/"@, "target/"@, "node_modules/"@,
                "dist/"@, "build/"@, ".git/"@, "*.lock"@, "*.log"@,
            ],
    {
        let res = owned_all(
            &[
                "tests/",
                "test/",
                "benches/",
                "examples/",
                "target/",
                "node_modules/",
                "dist/",
                "build/",
                ".git/",
                "*.lock",
                "*.log",
            ],
        );
        assert(string_views(res@) =~= seq![
            "tests/"@, "test/"@, "benches/"@, "examples/"@, "target/"@, "node_modules/"@,
            "dist/"@, "build/"@, ".git/"@, "*.lock"@, "*.log"@,
        ]);
        res
    }

    /// How often repositories are scanned.
    pub fn default_scan_interval() -> (res: String)
        ensures
            res@ == "daily"@,
    {
        owned("daily")
    }

    /// Paths a scan looks at.
    pub fn default_include_patterns() -> (res: Vec<String>)
        ensures
            string_views(res@) == seq!["src/"@],
    {
        let res = owned_all(&["src/"]);
        assert(string_views(res@) =~= seq!["src/"@]);
        res
    }

    /// The largest file a scan reads.
    pub fn default_max_file_size() -> (res: String)
        ensures
            res@ == "1MB"@,
    {
        owned("1MB")
    }

    /// The most files a scan reads.
    pub fn default_max_files() -> (res: usize)
        ensures
            res == 100,
    {
        100
    }

    /// The languages a scan looks at.
    pub fn default_languages() -> (res: Vec<String>)
        ensures
            string_views(res@) == seq!["rust"@, "javascript"@, "typescript"@, "python"@],
    {
        let res = owned_all(&["rust", "javascript", "typescript", "python"]);
        assert(string_views(res@) =~= seq!["rust"@, "javascript"@, "typescript"@, "python"@]);
        res
    }

    /// Tests are left out of a scan.
    pub fn default_skip_tests() -> (res: bool)
        ensures
            res,
    {
        true
    }

    /// How files are split into chunks.
    pub fn default_chunk_strategy() -> (res: String)
        ensures
            res@ == "smart"@,
    {
        owned("smart")
    }

    /// The most tokens an answer may hold.
    pub fn default_max_tokens() -> (res: u32)
        ensures
            res == 8192,
    {
        8192
    }

    /// The provider of the language model.
    pub fn default_provider() -> (res: String)
        ensures
            res@ == "anthropic"@,
    {
        owned("anthropic")
    }

    /// The format of the report.
    pub fn default_format() -> (res: String)
        ensures
            res@ == "custom"@,
    {
        owned("custom")
    }

    /// The analysis is saved.
    pub fn default_save_analysis() -> (res: bool)
        ensures
            res,
    {
        true
    }

    /// Output is not verbose.
    pub fn default_verbose() -> (res: bool)
        ensures
            !res,
    {
        false
    }

    /// Secrets are looked for.
    pub fn default_check_secrets() -> (res: bool)
        ensures
            res,
    {
        true
    }

    /// The lowest severity reported.
    pub fn default_severity_threshold() -> (res: String)
        ensures
            res@ == "low"@,
    {
        owned("low")
    }
}

/// A span of time: whole seconds and the nanoseconds beyond them.
pub struct Duration {
    pub secs: u64,
    pub nanos: u32,
}

/// The span in milliseconds.
pub open spec fn total_millis(d: Duration) -> int {
    d.secs * 1000 + d.nanos / 1_000_000
}

/// The time given for an analysis, `minutes` long.
pub fn timeout_duration(minutes: u64) -> (res: Duration)
    requires
        minutes * 60 <= u64::MAX,
    ensures
        res.secs == minutes * 60,
        res.nanos == 0,
{
    Duration { secs: minutes * 60, nanos: 0 }
}

/// A pause of `seconds` seconds.
pub fn sleep_duration_secs(seconds: u64) -> (res: Duration)
    ensures
        res.secs == seconds,
        res.nanos == 0,
{
    Duration { secs: seconds, nanos: 0 }
}

/// A pause of `milliseconds` milliseconds (`Duration::from_millis`).
pub fn sleep_duration_millis(milliseconds: u64) -> (res: Duration)
    ensures
        res.secs == milliseconds / 1000,
        res.nanos == (milliseconds % 1000) * 1_000_000,
        total_millis(res) == milliseconds,
{
    let secs = milliseconds / 1000;
    let rest = milliseconds % 1000;
    let nanos: u32 = (rest as u32) * 1_000_000;
    assert((milliseconds % 1000) * 1_000_000 / 1_000_000 == milliseconds % 1000) by (nonlinear_arith);
    Duration { secs, nanos }
}

/// One message of a conversation with the language model.
pub struct Message {
    pub role: String,
    pub content: String,
}

/// Asks the model to go on after a truncated answer: the answer so far as the
/// assistant's message, then a user message that asks it to continue.
pub fn add_continuation_messages(messages: &mut Vec<Message>, full_response: &str)
    ensures
        final(messages)@.len() == old(messages)@.len() + 2,
        forall|i: int| 0 <= i < old(messages)@.len() ==> #[trigger] final(messages)@[i] == old(messages)@[i],
        final(messages)@[old(messages)@.len() as int].role@ == "assistant"@,
        final(messages)@[old(messages)@.len() as int].content@ == full_response@,
        final(messages)@[old(messages)@.len() + 1int].role@ == "user"@,
        final(messages)@[old(messages)@.len() + 1int].content@ == "Please continue where you left off."@,
{
    messages.push(Message { role: owned("assistant"), content: owned(full_response) });
    messages.push(Message { role: owned("user"), content: owned("Please continue where you left off.") });
}

/// A file read from a repository.
pub struct FileInfo {
    pub path: String,
    pub content: String,
}

/// `s` with every occurrence of `pat` removed, scanning left to right
/// (`str::replace(pat, "")`); an empty `pat` leaves `s` as it is.
pub open spec fn remove_all(s: Seq<char>, pat: Seq<char>) -> Seq<char>
    decreases s.len(),
{
    if pat.len() == 0 || s.len() == 0 {
        s
    } else if starts_with(s, pat) {
        remove_all(s.skip(pat.len() as int), pat)
    } else {
        seq![s[0]] + remove_all(s.skip(1), pat)
    }
}

/// `n` in decimal, right-aligned in a field of `w` characters (`{:w}`).
pub open spec fn pad_number(n: nat, w: nat) -> Seq<char> {
    let d = decimal(n);
    if d.len() >= w {
        d
    } else {
        Seq::new((w - d.len()) as nat, |i: int| ' ') + d
    }
}

/// The numbered lines of a file, from line `i + 1`.
pub open spec fn numbered_lines(ls: Seq<Seq<char>>, n: int) -> Seq<char>
    decreases n,
{
    if n <= 0 || n > ls.len() {
        Seq::empty()
    } else {
        numbered_lines(ls, n - 1) + pad_number(n as nat, 4) + ": "@ + ls[n - 1] + "\n"@
    }
}

/// The part of the prompt that presents one file.
pub open spec fn file_section(path: Seq<char>, content: Seq<char>, repo: Seq<char>) -> Seq<char> {
    let p = remove_all(path, repo);
    let ls = lines_of(content);
    "File: "@ + p + " \nTotal lines: "@ + decimal(ls.len()) + "\n"@ + numbered_lines(ls, ls.len() as int)
        + "\n=== END OF "@ + p + " (lines 1-"@ + decimal(ls.len()) + ") ===\n\n"@
}

/// The sections of the first `n` files.
pub open spec fn file_sections(files: Seq<FileInfo>, repo: Seq<char>, n: int) -> Seq<char>
    decreases n,
{
    if n <= 0 || n > files.len() {
        Seq::empty()
    } else {
        file_sections(files, repo, n - 1) + file_section(files[n - 1].path@, files[n - 1].content@, repo)
    }
}

/// The closing instruction of the prompt.
pub open spec fn prompt_footer() -> Seq<char> {
    "CRITICAL: Use EXACT line numbers from above. If you reference line 562, ensure it exists in the file.\n"@
}

/// Appends `s` with every occurrence of `pat` removed.
pub fn push_removing(out: &mut String, s: &[char], pat: &[char])
    ensures
        final(out)@ == old(out)@ + remove_all(s@, pat@),
{
    let mut i: usize = 0;
    let n = s.len();
    assert(s@.skip(0) =~= s@);
    while i < n
        invariant
            i <= n == s@.len(),
            old(out)@ + remove_all(s@, pat@) == out@ + remove_all(s@.skip(i as int), pat@),
        decreases n - i,
    {
        let rest = copy_range(s, i, n);
        assert(rest@ =~= s@.skip(i as int));
        if pat.len() == 0 {
            push_chars(out, rest.as_slice());
            assert(s@.skip(n as int) =~= Seq::<char>::empty());
            i = n;
        } else if starts_with_chars(rest.as_slice(), pat) {
            assert(s@.skip(i as int).skip(pat@.len() as int) =~= s@.skip(i + pat@.len()));
            i = i + pat.len();
        } else {
            let ghost before = out@;
            push_char(out, s[i]);
            assert(s@.skip(i as int).skip(1) =~= s@.skip(i + 1));
            assert(out@ + remove_all(s@.skip(i + 1), pat@) =~= before + remove_all(s@.skip(i as int), pat@));
            i = i + 1;
        }
    }
    assert(s@.skip(i as int) =~= Seq::<char>::empty());
}

/// Appends `n` right-aligned in a field of `w` characters.
fn push_padded(out: &mut String, n: usize, w: usize)
    ensures
        final(out)@ == old(out)@ + pad_number(n as nat, w as nat),
{
    let d = crate::text::decimal_string(n);
    let len = d.unicode_len();
    if len < w {
        let mut k: usize = 0;
        while k < w - len
            invariant
                k <= w - len,
                out@ == old(out)@ + Seq::new(k as nat, |i: int| ' '),
            decreases w - len - k,
        {
            push_char(out, ' ');
            k = k + 1;
            assert(out@ =~= old(out)@ + Seq::new(k as nat, |i: int| ' '));
        }
    }
    out.append(d.as_str());
    assert(out@ =~= old(out)@ + pad_number(n as nat, w as nat));
}

/// The prompt that presents the files: for each, its path without the
/// repository path, its line count, its lines numbered from 1, and a closing
/// line; then an instruction to use those line numbers.
pub fn generate_prompt(files: Vec<FileInfo>, repo_path: &str) -> (res: String)
    ensures
        res@ == file_sections(files@, repo_path@, files@.len() as int) + prompt_footer(),
{
    let mut prompt = String::new();
    let pat = to_chars(repo_path);
    let mut f: usize = 0;
    while f < files.len()
        invariant
            f <= files@.len(),
            pat@ == repo_path@,
            prompt@ == file_sections(files@, repo_path@, f as int),
        decreases files@.len() - f,
    {
        let file = &files[f];
        let path_chars = to_chars(file.path.as_str());
        let mut path = String::new();
        push_removing(&mut path, path_chars.as_slice(), pat.as_slice());
        let lines = lines_of_str(file.content.as_str());
        let line_count = lines.len();
        let ghost start = prompt@;
        prompt.append("File: ");
        prompt.append(path.as_str());
        prompt.append(" \nTotal lines: ");
        push_decimal(&mut prompt, line_count);
        prompt.append("\n");
        let ghost head = prompt@;
        let mut i: usize = 0;
        while i < line_count
            invariant
                i <= line_count == lines@.len(),
                line_count <= file.content@.len(),
                prompt@ == head + numbered_lines(crate::text::views(lines@), i as int),
            decreases line_count - i,
        {
            let ghost before = prompt@;
            push_padded(&mut prompt, i + 1, 4);
            prompt.append(": ");
            push_chars(&mut prompt, lines[i].as_slice());
            prompt.append("\n");
            assert(crate::text::views(lines@)[i as int] == lines@[i as int]@);
            i = i + 1;
            assert(prompt@ =~= head + numbered_lines(crate::text::views(lines@), i as int));
        }
        prompt.append("\n=== END OF ");
        prompt.append(path.as_str());
        prompt.append(" (lines 1-");
        push_decimal(&mut prompt, line_count);
        prompt.append(") ===\n\n");
        assert(prompt@ =~= start + file_section(file.path@, file.content@, repo_path@));
        f = f + 1;
        assert(prompt@ =~= file_sections(files@, repo_path@, f as int));
    }
    prompt.append(
        "CRITICAL: Use EXACT line numbers from above. If you reference line 562, ensure it exists in the file.\n",
    );
    prompt
}

} // verus!
