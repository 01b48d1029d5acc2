//! The error type of the application, its severity, and the messages shown to users.

use vstd::prelude::*;
use crate::text::{decimal, join, string_views, push_char, push_decimal, join_strings, to_chars};
use crate::conversions::{debug_rendering, debug_text};

verus! {

broadcast use vstd::std_specs::vec::axiom_vec_index_decreases;

/// Every error the application reports.
#[derive(Debug)]
#[allow(inconsistent_fields)]
pub enum AicedError {
    ConfigurationError { message: String, field: Option<String>, suggestion: Option<String> },
    ConfigurationFileError { path: String, reason: String },
    RepositoryError { repository: String, operation: String, reason: String },
    RepositoryNotFound { name: String, available: Vec<String> },
    FileOperationError { file_path: String, operation: String, reason: String },
    FileValidationError {
        file_path: String,
        line_number: Option<usize>,
        expected: String,
        actual: String,
    },
    ParseError {
        content_type: String,
        line_number: Option<usize>,
        reason: String,
        context: Option<String>,
    },
    AnalysisError { repository: String, stage: String, reason: String, recoverable: bool },
    NetworkError {
        operation: String,
        url: Option<String>,
        status_code: Option<u16>,
        reason: String,
    },
    ValidationError {
        field: String,
        value: String,
        constraint: String,
        suggestion: Option<String>,
    },
    SystemError { operation: String, reason: String },
    UserInputError { input: String, expected: String, suggestion: String },
    MultipleErrors { errors: Vec<AicedError>, context: String },
}

/// How serious an error is, from `Low` to `Critical`.
#[derive(Debug, Clone, Copy, PartialEq, Eq, Structural, PartialOrd, Ord)]
pub enum ErrorSeverity {
    Low,
    Medium,
    High,
    Critical,
}

pub type AicedResult<T> = Result<T, AicedError>;

/// The view of an optional string.
pub open spec fn opt_view(o: Option<String>) -> Option<Seq<char>> {
    match o {
        Some(s) => Some(s@),
        None => None,
    }
}

/// The view of an optional string slice.
pub open spec fn opt_str_view(o: Option<&str>) -> Option<Seq<char>> {
    match o {
        Some(s) => Some(s@),
        None => None,
    }
}

/// `pre + v + post` when `o` holds `v`, else nothing.
pub open spec fn opt_part(pre: Seq<char>, o: Option<Seq<char>>, post: Seq<char>) -> Seq<char> {
    match o {
        Some(v) => pre + v + post,
        None => Seq::empty(),
    }
}

/// `pre + decimal(n) + post` when `o` holds `n`, else nothing.
pub open spec fn opt_num_part(pre: Seq<char>, o: Option<nat>, post: Seq<char>) -> Seq<char> {
    match o {
        Some(n) => pre + decimal(n) + post,
        None => Seq::empty(),
    }
}

/// Rank of a severity in the order `Low < Medium < High < Critical`.
pub open spec fn rank(s: ErrorSeverity) -> nat {
    match s {
        ErrorSeverity::Low => 0,
        ErrorSeverity::Medium => 1,
        ErrorSeverity::High => 2,
        ErrorSeverity::Critical => 3,
    }
}

/// The indentation that nested messages get: every `'\n'` becomes `"\n     "`.
pub open spec fn indent_newlines(s: Seq<char>) -> Seq<char>
    decreases s.len(),
{
    if s.len() == 0 {
        Seq::empty()
    } else if s.last() == '\n' {
        indent_newlines(s.drop_last()) + seq!['\n', ' ', ' ', ' ', ' ', ' ']
    } else {
        indent_newlines(s.drop_last()).push(s.last())
    }
}

/// Whether an error can be retried.
pub open spec fn recoverable(e: AicedError) -> bool
    decreases e, 0nat,
{
    match e {
        AicedError::AnalysisError { recoverable, .. } => recoverable,
        AicedError::NetworkError { .. } => true,
        AicedError::UserInputError { .. } => true,
        AicedError::ValidationError { .. } => true,
        AicedError::ConfigurationError { .. } => true,
        AicedError::MultipleErrors { errors, .. } => any_recoverable(errors@, errors@.len() as int),
        _ => false,
    }
}

/// Whether one of the first `k` errors is recoverable.
pub open spec fn any_recoverable(errs: Seq<AicedError>, k: int) -> bool
    decreases errs, k,
{
    if k <= 0 || k > errs.len() {
        false
    } else {
        any_recoverable(errs, k - 1) || recoverable(errs[k - 1])
    }
}

/// The severity of an error; that of a group of errors is the highest among them.
pub open spec fn severity_of(e: AicedError) -> ErrorSeverity
    decreases e, 0nat,
{
    match e {
        AicedError::SystemError { .. } => ErrorSeverity::Critical,
        AicedError::FileOperationError { .. } => ErrorSeverity::High,
        AicedError::AnalysisError { .. } => ErrorSeverity::High,
        AicedError::ConfigurationFileError { .. } => ErrorSeverity::High,
        AicedError::RepositoryNotFound { .. } => ErrorSeverity::Medium,
        AicedError::ParseError { .. } => ErrorSeverity::Medium,
        AicedError::NetworkError { .. } => ErrorSeverity::Medium,
        AicedError::ValidationError { .. } => ErrorSeverity::Low,
        AicedError::ConfigurationError { .. } => ErrorSeverity::Low,
        AicedError::UserInputError { .. } => ErrorSeverity::Low,
        AicedError::FileValidationError { .. } => ErrorSeverity::Medium,
        AicedError::RepositoryError { .. } => ErrorSeverity::Medium,
        AicedError::MultipleErrors { errors, .. } => max_severity(errors@, errors@.len() as int),
    }
}

/// The highest severity among the first `k` errors, `Low` when there are none.
pub open spec fn max_severity(errs: Seq<AicedError>, k: int) -> ErrorSeverity
    decreases errs, k,
{
    if k <= 0 || k > errs.len() {
        ErrorSeverity::Low
    } else {
        let a = max_severity(errs, k - 1);
        let b = severity_of(errs[k - 1]);
        if rank(b) > rank(a) {
            b
        } else {
            a
        }
    }
}

/// The message shown to the user for an error.
pub open spec fn message_of(e: AicedError) -> Seq<char>
    decreases e, 0nat,
{
    match e {
        AicedError::ConfigurationError { message, field, suggestion } => "Configuration Error: "@
            + message@ + opt_part(" (field: "@, opt_view(field), ")"@) + opt_part(
            "\n💡 Suggestion: "@,
            opt_view(suggestion),
            Seq::empty(),
        ),
        AicedError::ConfigurationFileError { path, reason } => "Configuration file error at '"@
            + path@ + "': "@ + reason@ + "\n💡 Check file permissions and syntax"@,
        AicedError::RepositoryError { repository, operation, reason } => "Repository '"@
            + repository@ + "' error during "@ + operation@ + ": "@ + reason@
            + "\n💡 Check repository path and permissions"@,
        AicedError::RepositoryNotFound { name, available } => "Repository '"@ + name@
            + "' not found"@ + if available@.len() > 0 {
            "\n💡 Available repositories: "@ + join(string_views(available@), ", "@)
        } else {
            Seq::empty()
        },
        AicedError::FileOperationError { file_path, operation, reason } => "File operation '"@
            + operation@ + "' failed for '"@ + file_path@ + "': "@ + reason@
            + "\n💡 Check file permissions and path"@,
        AicedError::FileValidationError { file_path, line_number, expected, actual } =>
            "File validation failed for '"@ + file_path@ + "'"@ + opt_num_part(
            " at line "@,
            match line_number {
                Some(l) => Some(l as nat),
                None => None,
            },
            Seq::empty(),
        ) + "\nExpected: '"@ + expected@ + "'\nActual: '"@ + actual@ + "'"@
            + "\n💡 File may have been modified since analysis"@,
        AicedError::ParseError { content_type, line_number, reason, context } => "Parse error in "@
            + content_type@ + ": "@ + reason@ + opt_num_part(
            " (line "@,
            match line_number {
                Some(l) => Some(l as nat),
                None => None,
            },
            ")"@,
        ) + opt_part("\nContext: "@, opt_view(context), Seq::empty())
            + "\n💡 Check the format and syntax of the input"@,
        AicedError::AnalysisError { repository, stage, reason, recoverable } =>
            "Analysis error in repository '"@ + repository@ + "' during "@ + stage@ + ": "@
            + reason@ + if recoverable {
            "\n💡 This error is recoverable - you can retry the operation"@
        } else {
            "\n⚠️ This error requires manual intervention"@
        },
        AicedError::NetworkError { operation, url, status_code, reason } => "Network error during "@
            + operation@ + ": "@ + reason@ + opt_part(" (URL: "@, opt_view(url), ")"@)
            + opt_num_part(
            " (Status: "@,
            match status_code {
                Some(c) => Some(c as nat),
                None => None,
            },
            ")"@,
        ) + "\n💡 Check your internet connection and try again"@,
        AicedError::ValidationError { field, value, constraint, suggestion } =>
            "Validation error for field '"@ + field@ + "': value '"@ + value@
            + "' violates constraint '"@ + constraint@ + "'"@ + opt_part(
            "\n💡 Suggestion: "@,
            opt_view(suggestion),
            Seq::empty(),
        ),
        AicedError::SystemError { operation, reason } => "System error during "@ + operation@
            + ": "@ + reason@,
        AicedError::UserInputError { input, expected, suggestion } => "Invalid input '"@ + input@
            + "': expected "@ + expected@ + "\n💡 "@ + suggestion@,
        AicedError::MultipleErrors { errors, context } => "Multiple errors occurred during "@
            + context@ + ":\n"@ + numbered_messages(errors@, errors@.len() as int),
    }
}

/// The first `k` nested messages, numbered from 1, one per line.
pub open spec fn numbered_messages(errs: Seq<AicedError>, k: int) -> Seq<char>
    decreases errs, k,
{
    if k <= 0 || k > errs.len() {
        Seq::empty()
    } else {
        numbered_messages(errs, k - 1) + "  "@ + decimal(k as nat) + ". "@ + indent_newlines(
            message_of(errs[k - 1]),
        ) + "\n"@
    }
}

/// An owned copy of a string slice.
pub fn owned(s: &str) -> (res: String)
    ensures
        res@ == s@,
{
    s.to_owned()
}

/// An owned copy of an optional string slice.
pub fn opt_owned(o: Option<&str>) -> (res: Option<String>)
    ensures
        opt_view(res) == opt_str_view(o),
{
    match o {
        Some(s) => Some(owned(s)),
        None => None,
    }
}

/// Appends `s` with every `'\n'` replaced by `"\n     "` (`str::replace`).
fn push_indented(out: &mut String, s: &String)
    ensures
        final(out)@ == old(out)@ + indent_newlines(s@),
{
    let cs = to_chars(s.as_str());
    let mut i: usize = 0;
    while i < cs.len()
        invariant
            i <= cs@.len(),
            cs@ == s@,
            out@ == old(out)@ + indent_newlines(cs@.take(i as int)),
        decreases cs@.len() - i,
    {
        let ghost pre = out@;
        let c = cs[i];
        assert(cs@.take(i + 1).drop_last() =~= cs@.take(i as int));
        if c == '\n' {
            out.append("\n     ");
            proof {
                reveal_strlit("\n     ");
            }
        } else {
            push_char(out, c);
        }
        i = i + 1;
        assert(out@ =~= old(out)@ + indent_newlines(cs@.take(i as int)));
    }
    assert(cs@.take(cs@.len() as int) =~= cs@);
}

/// Appends `pre + v + post` when `o` holds `v`.
fn push_opt(out: &mut String, pre: &str, o: &Option<String>, post: &str)
    ensures
        final(out)@ == old(out)@ + opt_part(pre@, opt_view(*o), post@),
{
    match o {
        Some(v) => {
            out.append(pre);
            out.append(v.as_str());
            out.append(post);
        },
        None => {},
    }
    assert(final(out)@ =~= old(out)@ + opt_part(pre@, opt_view(*o), post@));
}

/// Appends `pre + decimal(n) + post` when `o` holds `n`.
fn push_opt_num(out: &mut String, pre: &str, o: Option<usize>, post: &str)
    ensures
        final(out)@ == old(out)@ + opt_num_part(
            pre@,
            match o {
                Some(l) => Some(l as nat),
                None => None,
            },
            post@,
        ),
{
    match o {
        Some(n) => {
            out.append(pre);
            push_decimal(out, n);
            out.append(post);
        },
        None => {},
    }
    assert(final(out)@ =~= old(out)@ + opt_num_part(
        pre@,
        match o {
            Some(l) => Some(l as nat),
            None => None,
        },
        post@,
    ));
}


impl AicedError {
    /// A configuration error with an optional field name and suggestion.
    pub fn config_error(message: &str, field: Option<&str>, suggestion: Option<&str>) -> (res: Self)
        ensures
            res matches AicedError::ConfigurationError { message: m, field: f, suggestion: s }
                && m@ == message@ && opt_view(f) == opt_str_view(field) && opt_view(s)
                == opt_str_view(suggestion),
    {
        AicedError::ConfigurationError {
            message: owned(message),
            field: opt_owned(field),
            suggestion: opt_owned(suggestion),
        }
    }

    /// The same as `config_error`.
    pub fn configuration_error(message: &str, field: Option<&str>, suggestion: Option<&str>) -> (res:
        Self)
        ensures
            res matches AicedError::ConfigurationError { message: m, field: f, suggestion: s }
                && m@ == message@ && opt_view(f) == opt_str_view(field) && opt_view(s)
                == opt_str_view(suggestion),
    {
        AicedError::ConfigurationError {
            message: owned(message),
            field: opt_owned(field),
            suggestion: opt_owned(suggestion),
        }
    }

    /// An error in an operation on a repository.
    pub fn repo_error(repository: &str, operation: &str, reason: &str) -> (res: Self)
        ensures
            res matches AicedError::RepositoryError { repository: r, operation: o, reason: e }
                && r@ == repository@ && o@ == operation@ && e@ == reason@,
    {
        AicedError::RepositoryError {
            repository: owned(repository),
            operation: owned(operation),
            reason: owned(reason),
        }
    }

    /// An error in an operation on a file.
    pub fn file_error(file_path: &str, operation: &str, reason: &str) -> (res: Self)
        ensures
            res matches AicedError::FileOperationError { file_path: p, operation: o, reason: e }
                && p@ == file_path@ && o@ == operation@ && e@ == reason@,
    {
        AicedError::FileOperationError {
            file_path: owned(file_path),
            operation: owned(operation),
            reason: owned(reason),
        }
    }

    /// An internal error.
    pub fn system_error(operation: &str, reason: &str) -> (res: Self)
        ensures
            res matches AicedError::SystemError { operation: o, reason: e } && o@ == operation@
                && e@ == reason@,
    {
        AicedError::SystemError { operation: owned(operation), reason: owned(reason) }
    }

    /// An error in reading a text format.
    pub fn parse_error(
        content_type: &str,
        line_number: Option<usize>,
        reason: &str,
        context: Option<&str>,
    ) -> (res: Self)
        ensures
            res matches AicedError::ParseError {
                content_type: t,
                line_number: l,
                reason: e,
                context: c,
            } && t@ == content_type@ && l == line_number && e@ == reason@ && opt_view(c)
                == opt_str_view(context),
    {
        AicedError::ParseError {
            content_type: owned(content_type),
            line_number,
            reason: owned(reason),
            context: opt_owned(context),
        }
    }

    /// A value that breaks a constraint.
    pub fn validation_error(field: &str, value: &str, constraint: &str, suggestion: Option<&str>) -> (res:
        Self)
        ensures
            res matches AicedError::ValidationError {
                field: f,
                value: v,
                constraint: c,
                suggestion: s,
            } && f@ == field@ && v@ == value@ && c@ == constraint@ && opt_view(s) == opt_str_view(
                suggestion,
            ),
    {
        AicedError::ValidationError {
            field: owned(field),
            value: owned(value),
            constraint: owned(constraint),
            suggestion: opt_owned(suggestion),
        }
    }

    /// Whether the failed operation can be retried.
    pub fn is_recoverable(&self) -> (res: bool)
        ensures
            res == recoverable(*self),
        decreases self,
    {
        match self {
            AicedError::AnalysisError { recoverable, .. } => *recoverable,
            AicedError::NetworkError { .. } => true,
            AicedError::UserInputError { .. } => true,
            AicedError::ValidationError { .. } => true,
            AicedError::ConfigurationError { .. } => true,
            AicedError::MultipleErrors { errors, .. } => {
                let mut i: usize = 0;
                let mut any = false;
                #[verifier::loop_isolation(false)]
                while i < errors.len()
                    invariant
                        i <= errors@.len(),
                        any == any_recoverable(errors@, i as int),
                    decreases errors@.len() - i,
                {
                    let r = errors[i].is_recoverable();
                    any = any || r;
                    i = i + 1;
                }
                any
            },
            _ => false,
        }
    }

    /// How serious the error is; for a group, the highest severity in it (`Low` if empty).
    pub fn severity(&self) -> (res: ErrorSeverity)
        ensures
            res == severity_of(*self),
        decreases self,
    {
        match self {
            AicedError::SystemError { .. } => ErrorSeverity::Critical,
            AicedError::FileOperationError { .. } => ErrorSeverity::High,
            AicedError::AnalysisError { .. } => ErrorSeverity::High,
            AicedError::ConfigurationFileError { .. } => ErrorSeverity::High,
            AicedError::RepositoryNotFound { .. } => ErrorSeverity::Medium,
            AicedError::ParseError { .. } => ErrorSeverity::Medium,
            AicedError::NetworkError { .. } => ErrorSeverity::Medium,
            AicedError::ValidationError { .. } => ErrorSeverity::Low,
            AicedError::ConfigurationError { .. } => ErrorSeverity::Low,
            AicedError::UserInputError { .. } => ErrorSeverity::Low,
            AicedError::FileValidationError { .. } => ErrorSeverity::Medium,
            AicedError::RepositoryError { .. } => ErrorSeverity::Medium,
            AicedError::MultipleErrors { errors, .. } => {
                let mut i: usize = 0;
                let mut best = ErrorSeverity::Low;
                #[verifier::loop_isolation(false)]
                while i < errors.len()
                    invariant
                        i <= errors@.len(),
                        best == max_severity(errors@, i as int),
                    decreases errors@.len() - i,
                {
                    let s = errors[i].severity();
                    if s.rank() > best.rank() {
                        best = s;
                    }
                    i = i + 1;
                }
                best
            },
        }
    }

    /// The message shown to the user.
    #[verifier::rlimit(40)]
    pub fn user_message(&self) -> (res: String)
        ensures
            res@ == message_of(*self),
        decreases self,
    {
        proof {
            reveal_strlit("");
        }
        let mut msg = String::new();
        match self {
            AicedError::ConfigurationError { message, field, suggestion } => {
                msg.append("Configuration Error: ");
                msg.append(message.as_str());
                push_opt(&mut msg, " (field: ", field, ")");
                push_opt(&mut msg, "\n💡 Suggestion: ", suggestion, "");
                assert(msg@ =~= message_of(*self));
            },
            AicedError::ConfigurationFileError { path, reason } => {
                msg.append("Configuration file error at '");
                msg.append(path.as_str());
                msg.append("': ");
                msg.append(reason.as_str());
                msg.append("\n💡 Check file permissions and syntax");
                assert(msg@ =~= message_of(*self));
            },
            AicedError::RepositoryError { repository, operation, reason } => {
                msg.append("Repository '");
                msg.append(repository.as_str());
                msg.append("' error during ");
                msg.append(operation.as_str());
                msg.append(": ");
                msg.append(reason.as_str());
                msg.append("\n💡 Check repository path and permissions");
                assert(msg@ =~= message_of(*self));
            },
            AicedError::RepositoryNotFound { name, available } => {
                msg.append("Repository '");
                msg.append(name.as_str());
                msg.append("' not found");
                if available.len() > 0 {
                    msg.append("\n💡 Available repositories: ");
                    let joined = join_strings(available, ", ");
                    msg.append(joined.as_str());
                }
                assert(msg@ =~= message_of(*self));
            },
            AicedError::FileOperationError { file_path, operation, reason } => {
                msg.append("File operation '");
                msg.append(operation.as_str());
                msg.append("' failed for '");
                msg.append(file_path.as_str());
                msg.append("': ");
                msg.append(reason.as_str());
                msg.append("\n💡 Check file permissions and path");
                assert(msg@ =~= message_of(*self));
            },
            AicedError::FileValidationError { file_path, line_number, expected, actual } => {
                msg.append("File validation failed for '");
                msg.append(file_path.as_str());
                msg.append("'");
                push_opt_num(&mut msg, " at line ", *line_number, "");
                msg.append("\nExpected: '");
                msg.append(expected.as_str());
                msg.append("'\nActual: '");
                msg.append(actual.as_str());
                msg.append("'");
                msg.append("\n💡 File may have been modified since analysis");
                assert(msg@ =~= message_of(*self));
            },
            AicedError::ParseError { content_type, line_number, reason, context } => {
                msg.append("Parse error in ");
                msg.append(content_type.as_str());
                msg.append(": ");
                msg.append(reason.as_str());
                push_opt_num(&mut msg, " (line ", *line_number, ")");
                push_opt(&mut msg, "\nContext: ", context, "");
                msg.append("\n💡 Check the format and syntax of the input");
                assert(msg@ =~= message_of(*self));
            },
            AicedError::AnalysisError { repository, stage, reason, recoverable } => {
                msg.append("Analysis error in repository '");
                msg.append(repository.as_str());
                msg.append("' during ");
                msg.append(stage.as_str());
                msg.append(": ");
                msg.append(reason.as_str());
                if *recoverable {
                    msg.append("\n💡 This error is recoverable - you can retry the operation");
                } else {
                    msg.append("\n⚠️ This error requires manual intervention");
                }
                assert(msg@ =~= message_of(*self));
            },
            AicedError::NetworkError { operation, url, status_code, reason } => {
                msg.append("Network error during ");
                msg.append(operation.as_str());
                msg.append(": ");
                msg.append(reason.as_str());
                push_opt(&mut msg, " (URL: ", url, ")");
                let code: Option<usize> = match status_code {
                    Some(c) => Some(*c as usize),
                    None => None,
                };
                push_opt_num(&mut msg, " (Status: ", code, ")");
                msg.append("\n💡 Check your internet connection and try again");
                assert(msg@ =~= message_of(*self));
            },
            AicedError::ValidationError { field, value, constraint, suggestion } => {
                msg.append("Validation error for field '");
                msg.append(field.as_str());
                msg.append("': value '");
                msg.append(value.as_str());
                msg.append("' violates constraint '");
                msg.append(constraint.as_str());
                msg.append("'");
                push_opt(&mut msg, "\n💡 Suggestion: ", suggestion, "");
                assert(msg@ =~= message_of(*self));
            },
            AicedError::SystemError { operation, reason } => {
                msg.append("System error during ");
                msg.append(operation.as_str());
                msg.append(": ");
                msg.append(reason.as_str());
                assert(msg@ =~= message_of(*self));
            },
            AicedError::UserInputError { input, expected, suggestion } => {
                msg.append("Invalid input '");
                msg.append(input.as_str());
                msg.append("': expected ");
                msg.append(expected.as_str());
                msg.append("\n💡 ");
                msg.append(suggestion.as_str());
                assert(msg@ =~= message_of(*self));
            },
            AicedError::MultipleErrors { errors, context } => {
                msg.append("Multiple errors occurred during ");
                msg.append(context.as_str());
                msg.append(":\n");
                let ghost head = msg@;
                let mut i: usize = 0;
                #[verifier::loop_isolation(false)]
                while i < errors.len()
                    invariant
                        i <= errors@.len(),
                        msg@ == head + numbered_messages(errors@, i as int),
                    decreases errors@.len() - i,
                {
                    msg.append("  ");
                    push_decimal(&mut msg, i + 1);
                    msg.append(". ");
                    let inner = errors[i].user_message();
                    push_indented(&mut msg, &inner);
                    msg.append("\n");
                    i = i + 1;
                    assert(msg@ =~= head + numbered_messages(errors@, i as int));
                }
            },
        }
        assert(msg@ =~= message_of(*self));
        msg
    }

    /// The Debug rendering of the error, for logs.
    pub fn technical_details(&self) -> (res: String)
        ensures
            res@ == debug_rendering(*self),
    {
        debug_text(self)
    }
}

impl ErrorSeverity {
    /// The rank of the severity, from 0 (`Low`) to 3 (`Critical`).
    pub fn rank(&self) -> (res: u8)
        ensures
            res == rank(*self),
    {
        match self {
            ErrorSeverity::Low => 0,
            ErrorSeverity::Medium => 1,
            ErrorSeverity::High => 2,
            ErrorSeverity::Critical => 3,
        }
    }

    /// The colored marker of the severity.
    pub fn emoji(&self) -> (res: &'static str)
        ensures
            res@ == match *self {
                ErrorSeverity::Low => "🟢"@,
                ErrorSeverity::Medium => "🟡"@,
                ErrorSeverity::High => "🟠"@,
                ErrorSeverity::Critical => "🔴"@,
            },
    {
        match self {
            ErrorSeverity::Low => "🟢",
            ErrorSeverity::Medium => "🟡",
            ErrorSeverity::High => "🟠",
            ErrorSeverity::Critical => "🔴",
        }
    }

    /// The upper-case name of the severity.
    pub fn name(&self) -> (res: &'static str)
        ensures
            res@ == match *self {
                ErrorSeverity::Low => "LOW"@,
                ErrorSeverity::Medium => "MEDIUM"@,
                ErrorSeverity::High => "HIGH"@,
                ErrorSeverity::Critical => "CRITICAL"@,
            },
    {
        match self {
            ErrorSeverity::Low => "LOW",
            ErrorSeverity::Medium => "MEDIUM",
            ErrorSeverity::High => "HIGH",
            ErrorSeverity::Critical => "CRITICAL",
        }
    }
}

/// The line that follows the message of an error of each severity.
pub open spec fn severity_note(s: ErrorSeverity) -> Seq<char> {
    match s {
        ErrorSeverity::Critical => "🚨 Critical error detected - application may need to exit"@,
        ErrorSeverity::High => "⚠️ High severity error - operation failed"@,
        ErrorSeverity::Medium => "⚠️ Error occurred - some functionality may be affected"@,
        ErrorSeverity::Low => "ℹ️ Minor issue detected - operation can continue"@,
    }
}

/// Reports errors to the user.
pub struct ErrorHandler;

impl ErrorHandler {
    /// The lines to log for an error, in order: the severity name with the
    /// technical details, the marker with the user message, the note of the
    /// severity, and a retry hint when the error is recoverable.
    pub fn handle_error(error: &AicedError) -> (res: Vec<String>)
        ensures
            res@.len() == if recoverable(*error) { 4nat } else { 3nat },
            res@[0]@ == "["@ + ({
                let s = severity_of(*error);
                match s {
                    ErrorSeverity::Low => "LOW"@,
                    ErrorSeverity::Medium => "MEDIUM"@,
                    ErrorSeverity::High => "HIGH"@,
                    ErrorSeverity::Critical => "CRITICAL"@,
                }
            }) + "] "@ + debug_rendering(*error),
            res@[1]@ == (match severity_of(*error) {
                ErrorSeverity::Low => "🟢"@,
                ErrorSeverity::Medium => "🟡"@,
                ErrorSeverity::High => "🟠"@,
                ErrorSeverity::Critical => "🔴"@,
            }) + " "@ + message_of(*error),
            res@[2]@ == severity_note(severity_of(*error)),
            recoverable(*error) ==> res@[3]@
                == "🔄 This error is recoverable - you can retry the operation"@,
    {
        let severity = error.severity();
        let mut lines: Vec<String> = Vec::new();
        let mut first = String::new();
        first.append("[");
        first.append(severity.name());
        first.append("] ");
        let ghost head = first@;
        let details = error.technical_details();
        first.append(details.as_str());
        assert(first@.take(head.len() as int) =~= head);
        lines.push(first);
        let mut second = String::new();
        second.append(severity.emoji());
        second.append(" ");
        let message = error.user_message();
        second.append(message.as_str());
        lines.push(second);
        let note = match severity {
            ErrorSeverity::Critical => "🚨 Critical error detected - application may need to exit",
            ErrorSeverity::High => "⚠️ High severity error - operation failed",
            ErrorSeverity::Medium => "⚠️ Error occurred - some functionality may be affected",
            ErrorSeverity::Low => "ℹ️ Minor issue detected - operation can continue",
        };
        lines.push(owned(note));
        if error.is_recoverable() {
            lines.push(owned("🔄 This error is recoverable - you can retry the operation"));
        }
        lines
    }
}

} // verus!
