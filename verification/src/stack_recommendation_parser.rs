//! Parser of the stack recommendation that the language model writes for a
//! new project: a `RECOMMENDED_STACK:` block of `FIELD: value` lines and
//! `key: value` tables, closed by `END_RECOMMENDED_STACK`.

use vstd::prelude::*;
use crate::errors::{AicedError, AicedResult, owned};
use crate::text::{views, trim, starts_with, lines_of, lines_of_str, trim_chars, copy_range, find_char, find_from, chars_eq, to_chars, from_chars, starts_with_chars, push_chars};
use crate::cursor::{
    ParseFailure, Parsed, failure, reports, line_at, trimmed_starts, scan, field_value, agrees,
    line_chars, trimmed_line, trimmed_starts_with, field_at, scan_trimmed, chars_string,
    chars_start_with,
};
use crate::report::{
    StackRecommendation, StackRecommendationView, empty_recommendation,
    recommendation_field_count, insert_entry, insert_pair, pair_views,
};
use crate::analysis_parser::{kv_entries, kv_section};

verus! {

/// The name of single-valued field number `i` of a recommendation.
pub open spec fn recommendation_field(i: int) -> Seq<char> {
    if i == 0 {
        "PRIMARY_LANGUAGE:"@
    } else if i == 1 {
        "LANGUAGE_REASON:"@
    } else if i == 2 {
        "FRAMEWORK:"@
    } else if i == 3 {
        "FRAMEWORK_REASON:"@
    } else if i == 4 {
        "RUNTIME:"@
    } else if i == 5 {
        "PACKAGE_MANAGER:"@
    } else if i == 6 {
        "DATABASE:"@
    } else if i == 7 {
        "DATABASE_REASON:"@
    } else if i == 8 {
        "ORM:"@
    } else if i == 9 {
        "TESTING:"@
    } else if i == 10 {
        "BUILD_TOOLS:"@
    } else if i == 11 {
        "LINTING:"@
    } else if i == 12 {
        "CONTAINERIZATION:"@
    } else if i == 13 {
        "CLOUD_SERVICES:"@
    } else if i == 14 {
        "AUTHENTICATION:"@
    } else if i == 15 {
        "API_TYPE:"@
    } else if i == 16 {
        "API_REASON:"@
    } else if i == 17 {
        "ARCHITECTURE_PATTERN:"@
    } else if i == 18 {
        "ARCHITECTURE_REASON:"@
    } else if i == 19 {
        "SCALABILITY_CONSIDERATIONS:"@
    } else if i == 20 {
        "SECURITY_RECOMMENDATIONS:"@
    } else if i == 21 {
        "DEPLOYMENT_STRATEGY:"@
    } else if i == 22 {
        "LEARNING_CURVE:"@
    } else {
        "MAINTENANCE_EFFORT:"@
    }
}

/// The first single-valued field, from number `i` on, whose name starts the trimmed line `t`.
pub open spec fn first_recommendation_field(t: Seq<char>, i: int) -> int
    decreases recommendation_field_count() - i,
{
    if i < 0 || i >= recommendation_field_count() {
        recommendation_field_count() as int
    } else if starts_with(t, recommendation_field(i)) {
        i
    } else {
        first_recommendation_field(t, i + 1)
    }
}

/// Index of the first occurrence of `pat` in `s` at or after `i`, or `s.len()` (`str::find`).
pub open spec fn find_seq(s: Seq<char>, pat: Seq<char>, i: int) -> int
    decreases s.len() + 1 - i,
{
    if i < 0 || i + pat.len() > s.len() {
        s.len() as int
    } else if s.subrange(i, i + pat.len()) == pat {
        i
    } else {
        find_seq(s, pat, i + 1)
    }
}

/// The value of a dependency line after its colon: `version - purpose` with
/// both parts trimmed when it holds `" - "`, otherwise the text itself.
pub open spec fn dependency_value(rest: Seq<char>) -> Seq<char> {
    let d = find_seq(rest, " - "@, 0);
    if d < rest.len() {
        trim(rest.take(d)) + " - "@ + trim(rest.skip(d + 3))
    } else {
        rest
    }
}

/// The entries that the `package: version - purpose` lines set, in order.
pub open spec fn dependency_entries(s: Seq<Seq<char>>) -> Seq<(Seq<char>, Seq<char>)>
    decreases s.len(),
{
    if s.len() == 0 {
        Seq::empty()
    } else {
        let m = dependency_entries(s.drop_last());
        let t = trim(s.last());
        let c = find_from(t, ':', 0);
        if c < t.len() {
            insert_entry(m, trim(t.take(c)), dependency_value(trim(t.skip(c + 1))))
        } else {
            m
        }
    }
}

/// A dependency section from line `p` up to the line that starts with `end`:
/// its entries, and the line after it (or the end of the text).
pub open spec fn dependency_section(ls: Seq<Seq<char>>, p: int, end: Seq<char>) -> (
    Seq<(Seq<char>, Seq<char>)>,
    int,
) {
    let k = scan(ls, p, trimmed_starts(end));
    let entries = if 0 <= p <= k <= ls.len() {
        dependency_entries(ls.subrange(p, k))
    } else {
        Seq::empty()
    };
    if k < ls.len() {
        (entries, k + 1)
    } else {
        (entries, k)
    }
}

/// One line `q` of the body of a recommendation: the recommendation after it and the next line.
pub open spec fn recommendation_line(ls: Seq<Seq<char>>, q: int, rec: StackRecommendationView) -> Parsed<
    StackRecommendationView,
> {
    let t = trim(line_at(ls, q));
    let i = first_recommendation_field(t, 0);
    if t.len() == 0 {
        Parsed::Done { value: rec, at: q + 1 }
    } else if i < recommendation_field_count() {
        match field_value(ls, q, recommendation_field(i)) {
            Some(v) => Parsed::Done {
                value: StackRecommendationView { fields: rec.fields.update(i, Some(v)), ..rec },
                at: q + 1,
            },
            None => Parsed::Failed {
                failure: failure("InvalidFormat"@, q, "InvalidFormat"@, line_at(ls, q)),
                at: q,
            },
        }
    } else if starts_with(t, "RECOMMENDED_DEPENDENCIES:"@) {
        let (m, at) = dependency_section(ls, q + 1, "END_RECOMMENDED_DEPENDENCIES"@);
        Parsed::Done { value: StackRecommendationView { recommended_dependencies: m, ..rec }, at }
    } else if starts_with(t, "ESSENTIAL_CONFIGS:"@) {
        let (m, at) = kv_section(ls, q + 1, "END_ESSENTIAL_CONFIGS"@);
        Parsed::Done { value: StackRecommendationView { essential_configs: m, ..rec }, at }
    } else if starts_with(t, "PROJECT_STRUCTURE:"@) {
        let (m, at) = kv_section(ls, q + 1, "END_PROJECT_STRUCTURE"@);
        Parsed::Done { value: StackRecommendationView { project_structure: m, ..rec }, at }
    } else if starts_with(t, "DEVELOPMENT_WORKFLOW:"@) {
        let (m, at) = kv_section(ls, q + 1, "END_DEVELOPMENT_WORKFLOW"@);
        Parsed::Done { value: StackRecommendationView { development_workflow: m, ..rec }, at }
    } else {
        Parsed::Done { value: rec, at: q + 1 }
    }
}

/// The body of a recommendation from line `q` up to `END_RECOMMENDED_STACK` or
/// the end of the text; the reader stays on the closing line. A line always
/// moves the reader on; the bounds only make termination evident.
pub open spec fn recommendation_from(ls: Seq<Seq<char>>, q: int, rec: StackRecommendationView) -> Parsed<
    StackRecommendationView,
>
    decreases ls.len() + 2 - q,
{
    if q < 0 || q >= ls.len() || starts_with(trim(ls[q]), "END_RECOMMENDED_STACK"@) {
        Parsed::Done { value: rec, at: q }
    } else {
        match recommendation_line(ls, q, rec) {
            Parsed::Done { value, at } => if q < at <= ls.len() + 1 {
                recommendation_from(ls, at, value)
            } else {
                Parsed::Done { value: rec, at: q }
            },
            other => other,
        }
    }
}

/// The `RECOMMENDED_STACK:` block at or after line `p`.
pub open spec fn recommendation_step(ls: Seq<Seq<char>>, p: int) -> Parsed<StackRecommendationView> {
    let k = scan(ls, p, trimmed_starts("RECOMMENDED_STACK:"@));
    if k < 0 || k >= ls.len() {
        Parsed::Failed {
            failure: failure(
                "Recommended stack"@,
                k,
                "Recommended stack"@,
                "Recommended stack marker not found"@,
            ),
            at: k,
        }
    } else {
        recommendation_from(ls, k + 1, empty_recommendation())
    }
}

/// Reads a stack recommendation line by line.
pub struct StackRecommendationParser {
    lines: Vec<Vec<char>>,
    current: usize,
}

impl StackRecommendationParser {
    /// The lines of the text.
    pub closed spec fn text(&self) -> Seq<Seq<char>> {
        views(self.lines@)
    }

    /// The index of the current line.
    pub closed spec fn position(&self) -> int {
        self.current as int
    }

    /// Line numbers fit in a `usize`, and the reader is at most one line past the end.
    pub closed spec fn wf(&self) -> bool {
        &&& self.lines@.len() + 3 <= usize::MAX
        &&& self.current <= self.lines@.len() + 1
    }

    /// The reader is on a line of the text or just past its end.
    pub closed spec fn within(&self) -> bool {
        self.current <= self.lines@.len()
    }

    /// A reader at the first line of `input`.
    pub fn new(input: &str) -> (res: Self)
        requires
            input@.len() + 3 <= usize::MAX,
        ensures
            res.wf(),
            res.text() == lines_of(input@),
            res.position() == 0,
    {
        StackRecommendationParser { lines: lines_of_str(input), current: 0 }
    }

    /// The current line, empty past the end.
    fn current_line(&self) -> (res: Vec<char>)
        ensures
            res@ == line_at(self.text(), self.position()),
    {
        line_chars(&self.lines, self.current)
    }

    /// Moves to the next line.
    fn advance(&mut self)
        requires
            old(self).wf(),
            old(self).within(),
        ensures
            final(self).wf(),
            final(self).lines == old(self).lines,
            final(self).current == old(self).current + 1,
    {
        self.current = self.current + 1;
    }

    /// The reader is past the last line.
    fn is_eof(&self) -> (res: bool)
        ensures
            res == (self.position() >= self.text().len()),
    {
        self.current >= self.lines.len()
    }

    /// Checks that the trimmed current line starts with `expected`.
    fn expect_line(&self, expected: &str) -> (res: AicedResult<()>)
        requires
            self.wf(),
        ensures
            match res {
                Ok(_) => starts_with(trim(line_at(self.text(), self.position())), expected@),
                Err(e) => !starts_with(trim(line_at(self.text(), self.position())), expected@)
                    && reports(
                    e,
                    failure(
                        "InvalidFormat"@,
                        self.position(),
                        "InvalidFormat"@,
                        trim(line_at(self.text(), self.position())),
                    ),
                ),
            },
    {
        let t = trimmed_line(&self.lines, self.current);
        if !chars_start_with(t.as_slice(), expected) {
            let found = from_chars(t.as_slice());
            return Err(
                AicedError::parse_error(
                    "InvalidFormat",
                    Some(self.current),
                    "InvalidFormat",
                    Some(found.as_str()),
                ),
            );
        }
        Ok(())
    }

    /// The value of the field `prefix` on the current line; moves past it.
    fn parse_field(&mut self, prefix: &str) -> (res: AicedResult<String>)
        requires
            old(self).wf(),
        ensures
            final(self).wf(),
            final(self).lines == old(self).lines,
            match field_value(old(self).text(), old(self).position(), prefix@) {
                Some(v) => res matches Ok(s) && s@ == v && final(self).position() == old(self).position() + 1,
                None => res matches Err(e) && reports(
                    e,
                    failure(
                        "InvalidFormat"@,
                        old(self).position(),
                        "InvalidFormat"@,
                        line_at(old(self).text(), old(self).position()),
                    ),
                ) && final(self).position() == old(self).position(),
            },
    {
        match field_at(&self.lines, self.current, prefix) {
            Some(v) => {
                self.current = self.current + 1;
                Ok(chars_string(&v))
            },
            None => {
                let line = self.current_line();
                let found = from_chars(line.as_slice());
                Err(
                    AicedError::parse_error(
                        "InvalidFormat",
                        Some(self.current),
                        "InvalidFormat",
                        Some(found.as_str()),
                    ),
                )
            },
        }
    }

    /// The name of single-valued field number `i`.
    fn field_name(i: usize) -> (res: &'static str)
        requires
            i < recommendation_field_count(),
        ensures
            res@ == recommendation_field(i as int),
    {
        if i == 0 {
            "PRIMARY_LANGUAGE:"
        } else if i == 1 {
            "LANGUAGE_REASON:"
        } else if i == 2 {
            "FRAMEWORK:"
        } else if i == 3 {
            "FRAMEWORK_REASON:"
        } else if i == 4 {
            "RUNTIME:"
        } else if i == 5 {
            "PACKAGE_MANAGER:"
        } else if i == 6 {
            "DATABASE:"
        } else if i == 7 {
            "DATABASE_REASON:"
        } else if i == 8 {
            "ORM:"
        } else if i == 9 {
            "TESTING:"
        } else if i == 10 {
            "BUILD_TOOLS:"
        } else if i == 11 {
            "LINTING:"
        } else if i == 12 {
            "CONTAINERIZATION:"
        } else if i == 13 {
            "CLOUD_SERVICES:"
        } else if i == 14 {
            "AUTHENTICATION:"
        } else if i == 15 {
            "API_TYPE:"
        } else if i == 16 {
            "API_REASON:"
        } else if i == 17 {
            "ARCHITECTURE_PATTERN:"
        } else if i == 18 {
            "ARCHITECTURE_REASON:"
        } else if i == 19 {
            "SCALABILITY_CONSIDERATIONS:"
        } else if i == 20 {
            "SECURITY_RECOMMENDATIONS:"
        } else if i == 21 {
            "DEPLOYMENT_STRATEGY:"
        } else if i == 22 {
            "LEARNING_CURVE:"
        } else {
            "MAINTENANCE_EFFORT:"
        }
    }

    /// The first single-valued field whose name starts the trimmed line `t`.
    fn first_field_index(t: &[char]) -> (res: usize)
        ensures
            res == first_recommendation_field(t@, 0),
    {
        let mut i: usize = 0;
        while i < 24
            invariant
                i <= 24,
                first_recommendation_field(t@, 0) == first_recommendation_field(t@, i as int),
            decreases 24 - i,
        {
            if chars_start_with(t, Self::field_name(i)) {
                return i;
            }
            i = i + 1;
        }
        i
    }

    /// The first `" - "` in `s`, or `s.len()`.
    fn find_dash(s: &[char]) -> (res: usize)
        ensures
            res == find_seq(s@, " - "@, 0),
            res < s@.len() ==> res + 3 <= s@.len(),
    {
        proof {
            reveal_strlit(" - ");
        }
        let mut i: usize = 0;
        while i < s.len() && s.len() - i >= 3
            invariant
                i <= s@.len(),
                find_seq(s@, " - "@, 0) == find_seq(s@, " - "@, i as int),
            decreases s@.len() - i,
        {
            proof {
                reveal_strlit(" - ");
            }
            if s[i] == ' ' && s[i + 1] == '-' && s[i + 2] == ' ' {
                assert(s@.subrange(i as int, i + 3) =~= " - "@);
                return i;
            }
            assert(s@.subrange(i as int, i + 3)[0] == s@[i as int]);
            assert(s@.subrange(i as int, i + 3)[1] == s@[i + 1]);
            assert(s@.subrange(i as int, i + 3)[2] == s@[i + 2]);
            assert(s@.subrange(i as int, i + 3) != " - "@);
            i = i + 1;
        }
        s.len()
    }

    /// A `package: version - purpose` section up to the line that starts with `end_marker`.
    fn parse_dependency_section(&mut self, end_marker: &str) -> (res: AicedResult<Vec<(String, String)>>)
        requires
            old(self).wf(),
            old(self).within(),
        ensures
            final(self).wf(),
            final(self).lines == old(self).lines,
            res matches Ok(m) && pair_views(m@) == dependency_section(
                old(self).text(),
                old(self).position(),
                end_marker@,
            ).0,
            final(self).position() == dependency_section(old(self).text(), old(self).position(), end_marker@).1,
            final(self).position() >= old(self).position(),
    {
        let start = self.current;
        let k = scan_trimmed(&self.lines, start, end_marker);
        let mut dependencies: Vec<(String, String)> = Vec::new();
        assert(self.text().subrange(start as int, start as int) =~= Seq::<Seq<char>>::empty());
        while self.current < k
            invariant
                self.wf(),
                self.lines == old(self).lines,
                start <= self.current <= k <= self.lines@.len(),
                pair_views(dependencies@) == dependency_entries(
                    self.text().subrange(start as int, self.position()),
                ),
            decreases k - self.current,
        {
            let t = trimmed_line(&self.lines, self.current);
            let ghost prev = self.text().subrange(start as int, self.position());
            let ghost next = self.text().subrange(start as int, self.position() + 1);
            assert(next.drop_last() =~= prev);
            assert(next.last() == line_at(self.text(), self.position()));
            proof {
                crate::text::lemma_find_from_bounds(t@, ':', 0);
            }
            match find_char(t.as_slice(), ':') {
                Some(c) => {
                    let name_part = copy_range(t.as_slice(), 0, c);
                    let rest_part = copy_range(t.as_slice(), c + 1, t.len());
                    assert(name_part@ =~= t@.take(c as int));
                    assert(rest_part@ =~= t@.skip(c + 1));
                    let package_name = trim_chars(name_part.as_slice());
                    let rest = trim_chars(rest_part.as_slice());
                    let d = Self::find_dash(rest.as_slice());
                    let value = if d < rest.len() {
                        let version_part = copy_range(rest.as_slice(), 0, d);
                        let purpose_part = copy_range(rest.as_slice(), d + 3, rest.len());
                        assert(version_part@ =~= rest@.take(d as int));
                        assert(purpose_part@ =~= rest@.skip(d + 3));
                        let version = trim_chars(version_part.as_slice());
                        let purpose = trim_chars(purpose_part.as_slice());
                        let mut v = chars_string(&version);
                        v.append(" - ");
                        push_chars(&mut v, purpose.as_slice());
                        v
                    } else {
                        chars_string(&rest)
                    };
                    insert_pair(&mut dependencies, chars_string(&package_name), value);
                },
                None => {},
            }
            self.advance();
        }
        if !self.is_eof() {
            assert(line_at(self.text(), self.position()) == self.text()[self.position()]);
            match self.expect_line(end_marker) {
                Ok(_) => {},
                Err(e) => return Err(e),
            }
            self.advance();
        }
        Ok(dependencies)
    }

    /// A `key: value` section up to the line that starts with `end_marker`.
    fn parse_key_value_section(&mut self, end_marker: &str) -> (res: AicedResult<Vec<(String, String)>>)
        requires
            old(self).wf(),
            old(self).within(),
        ensures
            final(self).wf(),
            final(self).lines == old(self).lines,
            res matches Ok(m) && pair_views(m@) == kv_section(
                old(self).text(),
                old(self).position(),
                end_marker@,
            ).0,
            final(self).position() == kv_section(old(self).text(), old(self).position(), end_marker@).1,
            final(self).position() >= old(self).position(),
    {
        let start = self.current;
        let k = scan_trimmed(&self.lines, start, end_marker);
        let mut map: Vec<(String, String)> = Vec::new();
        assert(self.text().subrange(start as int, start as int) =~= Seq::<Seq<char>>::empty());
        while self.current < k
            invariant
                self.wf(),
                self.lines == old(self).lines,
                start <= self.current <= k <= self.lines@.len(),
                pair_views(map@) == kv_entries(self.text().subrange(start as int, self.position())),
            decreases k - self.current,
        {
            let t = trimmed_line(&self.lines, self.current);
            let ghost prev = self.text().subrange(start as int, self.position());
            let ghost next = self.text().subrange(start as int, self.position() + 1);
            assert(next.drop_last() =~= prev);
            assert(next.last() == line_at(self.text(), self.position()));
            proof {
                crate::text::lemma_find_from_bounds(t@, ':', 0);
            }
            match find_char(t.as_slice(), ':') {
                Some(c) => {
                    let n = t.len();
                    assert(c < n);
                    let key_part = copy_range(t.as_slice(), 0, c);
                    let value_part = copy_range(t.as_slice(), c + 1, n);
                    assert(key_part@ =~= t@.take(c as int));
                    assert(value_part@ =~= t@.skip(c + 1));
                    let key = trim_chars(key_part.as_slice());
                    let value = trim_chars(value_part.as_slice());
                    insert_pair(&mut map, chars_string(&key), chars_string(&value));
                },
                None => {},
            }
            self.advance();
        }
        if !self.is_eof() {
            assert(line_at(self.text(), self.position()) == self.text()[self.position()]);
            match self.expect_line(end_marker) {
                Ok(_) => {},
                Err(e) => return Err(e),
            }
            self.advance();
        }
        Ok(map)
    }

    /// One line of the body of a recommendation.
    fn parse_recommendation_line(&mut self, rec: &mut StackRecommendation) -> (res: AicedResult<()>)
        requires
            old(self).wf(),
            old(self).within(),
        ensures
            final(self).wf(),
            final(self).lines == old(self).lines,
            match recommendation_line(old(self).text(), old(self).position(), old(rec)@) {
                Parsed::Done { value, at } => res is Ok && final(rec)@ == value && final(self).position() == at
                    && at > old(self).position(),
                Parsed::Failed { failure, at } => res matches Err(e) && reports(e, failure)
                    && final(self).position() == at,
                Parsed::Stalls => false,
            },
    {
        let t = trimmed_line(&self.lines, self.current);
        if t.len() == 0 {
            self.advance();
            return Ok(());
        }
        let i = Self::first_field_index(t.as_slice());
        if i < 24 {
            match self.parse_field(Self::field_name(i)) {
                Ok(v) => rec.set_field(i, v),
                Err(e) => return Err(e),
            }
        } else if chars_start_with(t.as_slice(), "RECOMMENDED_DEPENDENCIES:") {
            self.advance();
            match self.parse_dependency_section("END_RECOMMENDED_DEPENDENCIES") {
                Ok(m) => rec.recommended_dependencies = m,
                Err(e) => return Err(e),
            }
        } else if chars_start_with(t.as_slice(), "ESSENTIAL_CONFIGS:") {
            self.advance();
            match self.parse_key_value_section("END_ESSENTIAL_CONFIGS") {
                Ok(m) => rec.essential_configs = m,
                Err(e) => return Err(e),
            }
        } else if chars_start_with(t.as_slice(), "PROJECT_STRUCTURE:") {
            self.advance();
            match self.parse_key_value_section("END_PROJECT_STRUCTURE") {
                Ok(m) => rec.project_structure = m,
                Err(e) => return Err(e),
            }
        } else if chars_start_with(t.as_slice(), "DEVELOPMENT_WORKFLOW:") {
            self.advance();
            match self.parse_key_value_section("END_DEVELOPMENT_WORKFLOW") {
                Ok(m) => rec.development_workflow = m,
                Err(e) => return Err(e),
            }
        } else {
            self.advance();
        }
        Ok(())
    }

    /// Reads the `RECOMMENDED_STACK:` block at or after the current line.
    pub fn parse(&mut self) -> (res: AicedResult<StackRecommendation>)
        requires
            old(self).wf(),
        ensures
            final(self).wf(),
            final(self).text() == old(self).text(),
            agrees(
                res,
                final(self).position(),
                recommendation_step(old(self).text(), old(self).position()),
                |r: StackRecommendation| r@,
            ),
    {
        self.current = scan_trimmed(&self.lines, self.current, "RECOMMENDED_STACK:");
        if self.is_eof() {
            return Err(
                AicedError::parse_error(
                    "Recommended stack",
                    Some(self.current),
                    "Recommended stack",
                    Some("Recommended stack marker not found"),
                ),
            );
        }
        assert(line_at(self.text(), self.position()) == self.text()[self.position()]);
        match self.expect_line("RECOMMENDED_STACK:") {
            Ok(_) => {},
            Err(e) => return Err(e),
        }
        self.advance();
        let ghost q0 = self.position();
        let mut recommendation = StackRecommendation::default();
        loop
            invariant
                self.wf(),
                self.lines == old(self).lines,
                self.position() >= q0 > old(self).position(),
                recommendation_step(old(self).text(), old(self).position()) == recommendation_from(
                    self.text(),
                    q0,
                    empty_recommendation(),
                ),
                recommendation_from(self.text(), q0, empty_recommendation()) == recommendation_from(
                    self.text(),
                    self.position(),
                    recommendation@,
                ),
            ensures
                self.wf(),
                self.lines == old(self).lines,
                recommendation_step(old(self).text(), old(self).position()) == (Parsed::Done {
                    value: recommendation@,
                    at: self.position(),
                }),
                self.position() < self.text().len() ==> starts_with(
                    trim(self.text()[self.position()]),
                    "END_RECOMMENDED_STACK"@,
                ),
            decreases self.lines@.len() + 2 - self.current,
        {
            if self.is_eof() || trimmed_starts_with(&self.lines, self.current, "END_RECOMMENDED_STACK") {
                assert(self.current < self.lines.len() ==> line_at(self.text(), self.position())
                    == self.text()[self.position()]);
                break;
            }
            assert(line_at(self.text(), self.position()) == self.text()[self.position()]);
            let ghost q = self.position();
            let ghost r0 = recommendation@;
            assert(!starts_with(trim(self.text()[q]), "END_RECOMMENDED_STACK"@));
            match self.parse_recommendation_line(&mut recommendation) {
                Ok(_) => {},
                Err(e) => {
                    assert(recommendation_line(self.text(), q, r0) is Failed);
                    assert(recommendation_from(self.text(), q, r0) == recommendation_line(
                        self.text(),
                        q,
                        r0,
                    ));
                    return Err(e);
                },
            }
        }
        if !self.is_eof() {
            assert(line_at(self.text(), self.position()) == self.text()[self.position()]);
            match self.expect_line("END_RECOMMENDED_STACK") {
                Ok(_) => {},
                Err(e) => return Err(e),
            }
        }
        Ok(recommendation)
    }
}

} // verus!
