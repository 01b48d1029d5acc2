//! The streamed answer of a language model: the items a provider sends,
//! the lines of its event stream, and the text and token counts they add up to.

use vstd::prelude::*;
use crate::errors::{AicedError, owned, opt_view};
use crate::text::{trim, starts_with, to_chars, trim_chars, copy_range, starts_with_chars, chars_eq, from_chars, str_eq};
use crate::config::{Config, RepositoryConfig};

verus! {

/// An error of a language-model provider.
pub enum AiProviderError {
    ApiError(String),
    NetworkError(String),
    SerializationError(String),
    AuthenticationError(String),
}

/// An error of the Anthropic provider.
pub enum AnthropicError {
    ApiError(String),
    NetworkError(String),
    SerializationError(String),
    AuthenticationError(String),
}

impl AiProviderError {
    /// The text of the error.
    pub fn message(&self) -> (res: String)
        ensures
            res@ == match *self {
                AiProviderError::ApiError(m) => "Anthropic API Error: "@ + m@,
                AiProviderError::NetworkError(m) => "Network Error: "@ + m@,
                AiProviderError::SerializationError(m) => "Serialization Error: "@ + m@,
                AiProviderError::AuthenticationError(m) => "Authentication Error: "@ + m@,
            },
    {
        let (mut s, m) = match self {
            AiProviderError::ApiError(m) => (owned("Anthropic API Error: "), m),
            AiProviderError::NetworkError(m) => (owned("Network Error: "), m),
            AiProviderError::SerializationError(m) => (owned("Serialization Error: "), m),
            AiProviderError::AuthenticationError(m) => (owned("Authentication Error: "), m),
        };
        s.append(m.as_str());
        s
    }
}

impl AnthropicError {
    /// The text of the error.
    pub fn message(&self) -> (res: String)
        ensures
            res@ == match *self {
                AnthropicError::ApiError(m) => "Anthropic API Error: "@ + m@,
                AnthropicError::NetworkError(m) => "Network Error: "@ + m@,
                AnthropicError::SerializationError(m) => "Serialization Error: "@ + m@,
                AnthropicError::AuthenticationError(m) => "Authentication Error: "@ + m@,
            },
    {
        let (mut s, m) = match self {
            AnthropicError::ApiError(m) => (owned("Anthropic API Error: "), m),
            AnthropicError::NetworkError(m) => (owned("Network Error: "), m),
            AnthropicError::SerializationError(m) => (owned("Serialization Error: "), m),
            AnthropicError::AuthenticationError(m) => (owned("Authentication Error: "), m),
        };
        s.append(m.as_str());
        s
    }
}

/// One item of a streamed answer.
pub struct StreamItem {
    /// The text it adds.
    pub content: String,
    /// The answer is complete.
    pub is_complete: bool,
    /// Why the model stopped, when it did.
    pub stop_reason: Option<String>,
    /// Input tokens it reports.
    pub input_tokens: Option<u32>,
    /// Output tokens it reports.
    pub output_tokens: Option<u32>,
}

impl StreamItem {
    /// An item that adds `content` and does not end the answer.
    pub fn new(content: String) -> (res: Self)
        ensures
            res.content@ == content@,
            !res.is_complete,
            res.stop_reason is None,
            res.input_tokens is None,
            res.output_tokens is None,
    {
        StreamItem { content, is_complete: false, stop_reason: None, input_tokens: None, output_tokens: None }
    }

    /// The item that ends the answer.
    pub fn complete(content: String, stop_reason: Option<String>) -> (res: Self)
        ensures
            res.content@ == content@,
            res.is_complete,
            opt_view(res.stop_reason) == opt_view(stop_reason),
            res.input_tokens is None,
            res.output_tokens is None,
    {
        StreamItem { content, is_complete: true, stop_reason, input_tokens: None, output_tokens: None }
    }

    /// An item that adds `content` and reports token counts.
    pub fn with_tokens(content: String, input_tokens: Option<u32>, output_tokens: Option<u32>) -> (res: Self)
        ensures
            res.content@ == content@,
            !res.is_complete,
            res.stop_reason is None,
            res.input_tokens == input_tokens,
            res.output_tokens == output_tokens,
    {
        StreamItem { content, is_complete: false, stop_reason: None, input_tokens, output_tokens }
    }

    /// The item that ends the answer and reports the output tokens of its last part.
    pub fn finished(content: String, stop_reason: Option<String>, output_tokens: u32) -> (res: Self)
        ensures
            res.content@ == content@,
            res.is_complete,
            opt_view(res.stop_reason) == opt_view(stop_reason),
            res.input_tokens is None,
            res.output_tokens == Some(output_tokens),
    {
        StreamItem { content, is_complete: true, stop_reason, input_tokens: None, output_tokens: Some(output_tokens) }
    }
}

/// The data of a server-sent-event line: what follows `"data: "`, unless the
/// line does not start with it or its data, trimmed, is `[DONE]`.
pub open spec fn sse_data(line: Seq<char>) -> Option<Seq<char>> {
    if line.len() == 0 || !starts_with(line, "data: "@) {
        None
    } else {
        let data = line.skip("data: "@.len() as int);
        if trim(data) == "[DONE]"@ {
            None
        } else {
            Some(data)
        }
    }
}

/// The data of a server-sent-event line, if it carries an event.
pub fn sse_payload(line: &str) -> (res: Option<String>)
    ensures
        opt_view(res) == sse_data(line@),
{
    let l = to_chars(line);
    let prefix = to_chars("data: ");
    if l.len() == 0 || !starts_with_chars(l.as_slice(), prefix.as_slice()) {
        return None;
    }
    let data = copy_range(l.as_slice(), prefix.len(), l.len());
    assert(data@ =~= line@.skip("data: "@.len() as int));
    let t = trim_chars(data.as_slice());
    let done = to_chars("[DONE]");
    if chars_eq(t.as_slice(), done.as_slice()) {
        return None;
    }
    Some(from_chars(data.as_slice()))
}

/// An event of the Anthropic stream, as the application decodes it from the data of a line.
pub enum AnthropicEvent {
    /// A piece of the answer.
    ContentBlockDelta { delta_type: String, text: Option<String> },
    /// A change of the message; a stop reason ends the answer.
    MessageDelta { stop_reason: Option<String> },
    /// An error that the service reports.
    Error { error_type: String, message: String },
}

/// The item, or the error, that an event gives; `Err` holds the message of a
/// data that could not be decoded.
pub fn anthropic_item(event: Result<AnthropicEvent, String>) -> (res: Result<StreamItem, AnthropicError>)
    ensures
        match event {
            Ok(AnthropicEvent::ContentBlockDelta { delta_type, text }) => res matches Ok(item)
                && !item.is_complete && item.stop_reason is None && item.input_tokens is None
                && item.output_tokens is None && item.content@ == (if delta_type@ == "text_delta"@ {
                match opt_view(text) {
                    Some(t) => t,
                    None => Seq::empty(),
                }
            } else {
                Seq::empty()
            }),
            Ok(AnthropicEvent::MessageDelta { stop_reason }) => res matches Ok(item)
                && item.content@ == Seq::<char>::empty() && item.is_complete == (stop_reason is Some)
                && opt_view(item.stop_reason) == opt_view(stop_reason) && item.input_tokens is None
                && item.output_tokens is None,
            Ok(AnthropicEvent::Error { error_type, message }) => res matches Err(
                AnthropicError::ApiError(m),
            ) && m@ == error_type@ + ": "@ + message@,
            Err(e) => res matches Err(AnthropicError::SerializationError(m)) && m@
                == "Failed to parse event: "@ + e@,
        },
{
    proof {
        reveal_strlit("");
    }
    match event {
        Ok(AnthropicEvent::ContentBlockDelta { delta_type, text }) => {
            if str_eq(delta_type.as_str(), "text_delta") {
                match text {
                    Some(t) => Ok(StreamItem::new(t)),
                    None => Ok(StreamItem::new(String::new())),
                }
            } else {
                Ok(StreamItem::new(String::new()))
            }
        },
        Ok(AnthropicEvent::MessageDelta { stop_reason }) => {
            match stop_reason {
                Some(r) => Ok(StreamItem::complete(String::new(), Some(r))),
                None => Ok(StreamItem::new(String::new())),
            }
        },
        Ok(AnthropicEvent::Error { error_type, message }) => {
            let mut m = error_type;
            m.append(": ");
            m.append(message.as_str());
            Err(AnthropicError::ApiError(m))
        },
        Err(e) => {
            let mut m = owned("Failed to parse event: ");
            m.append(e.as_str());
            Err(AnthropicError::SerializationError(m))
        },
    }
}

/// The whole text of a streamed answer and the tokens it used.
pub struct StreamResult {
    pub content: String,
    pub input_tokens: u32,
    pub output_tokens: u32,
}

/// The count after adding what an item reports.
pub open spec fn add_tokens(count: u32, reported: Option<u32>) -> int {
    match reported {
        Some(n) => count + n,
        None => count as int,
    }
}

impl StreamResult {
    /// Nothing received yet.
    pub fn empty() -> (res: Self)
        ensures
            res.content@ == Seq::<char>::empty(),
            res.input_tokens == 0,
            res.output_tokens == 0,
    {
        StreamResult { content: String::new(), input_tokens: 0, output_tokens: 0 }
    }

    /// Adds one item of the stream: its text and the tokens it reports.
    /// Returns whether the answer is complete.
    pub fn absorb(&mut self, item: &StreamItem) -> (done: bool)
        requires
            add_tokens(old(self).input_tokens, item.input_tokens) <= u32::MAX,
            add_tokens(old(self).output_tokens, item.output_tokens) <= u32::MAX,
        ensures
            final(self).content@ == old(self).content@ + item.content@,
            final(self).input_tokens == add_tokens(old(self).input_tokens, item.input_tokens),
            final(self).output_tokens == add_tokens(old(self).output_tokens, item.output_tokens),
            done == item.is_complete,
    {
        if item.content.unicode_len() > 0 {
            self.content.append(item.content.as_str());
        } else {
            assert(item.content@ =~= Seq::<char>::empty());
            assert(self.content@ =~= old(self).content@ + item.content@);
        }
        match item.input_tokens {
            Some(n) => self.input_tokens = self.input_tokens + n,
            None => {},
        }
        match item.output_tokens {
            Some(n) => self.output_tokens = self.output_tokens + n,
            None => {},
        }
        item.is_complete
    }
}

/// The error of a stream that could not be opened or read: `detail` names what failed.
pub fn stream_error(detail: &str) -> (res: AicedError)
    ensures
        res matches AicedError::SystemError { operation, reason } && operation@ == "analysis Error"@
            && reason@ == "Failed to connect to "@ + detail@ + " server"@,
{
    let mut reason = owned("Failed to connect to ");
    reason.append(detail);
    reason.append(" server");
    AicedError::SystemError { operation: owned("analysis Error"), reason }
}

/// Streams a chat with a language model through a provider.
pub struct AicedAdapter<P> {
    ai_provider: P,
}

impl<P> AicedAdapter<P> {
    /// An adapter over the provider.
    pub fn new(ai_provider: P) -> (res: Self)
        ensures
            res.provider() == ai_provider,
    {
        AicedAdapter { ai_provider }
    }

    /// The provider.
    pub closed spec fn provider(&self) -> P {
        self.ai_provider
    }

    /// The provider, to open a stream with.
    pub fn ai_provider(&self) -> (res: &P)
        ensures
            *res == self.provider(),
    {
        &self.ai_provider
    }
}

/// Analyses the configured repositories one after the other.
pub struct RepositoryManager {
    pub config: Config,
}

impl RepositoryManager {
    /// A manager of the repositories of the configuration.
    pub fn new(config: Config) -> (res: Self)
        ensures
            res.config == config,
    {
        RepositoryManager { config }
    }

    /// After analysing repository number `index` of `count`, the manager pauses
    /// before the next one: after every repository but the last.
    pub fn pauses_after(index: usize, count: usize) -> (res: bool)
        requires
            index < count,
        ensures
            res == (index < count - 1),
    {
        index < count - 1
    }

    /// The arguments of the `git` command that pulls a repository: its branch,
    /// or `main` when it names none.
    pub fn pull_arguments(repo: &RepositoryConfig) -> (res: Vec<String>)
        ensures
            res@.len() == 3,
            res@[0]@ == "pull"@,
            res@[1]@ == "origin"@,
            res@[2]@ == match opt_view(repo.branch) {
                Some(b) => b,
                None => "main"@,
            },
    {
        let mut args: Vec<String> = Vec::new();
        args.push(owned("pull"));
        args.push(owned("origin"));
        match &repo.branch {
            Some(b) => args.push(owned(b.as_str())),
            None => args.push(owned("main")),
        }
        args
    }

    /// The error of a pull that failed.
    pub fn pull_error() -> (res: AicedError)
        ensures
            res matches AicedError::SystemError { operation, reason } && operation@ == "git pull"@
                && reason@ == "Failed to pull latest changes"@,
    {
        AicedError::system_error("git pull", "Failed to pull latest changes")
    }
}

/// How the changes of an analysis are applied.
pub enum ApplicationMode {
    /// Review each change individually.
    Individual,
    /// Apply by priority order.
    Priority,
    /// Apply by category.
    Category,
    /// Apply by severity level.
    Severity,
    /// Apply all changes at once.
    All,
    /// Skip this repository.
    Skip,
}

/// The order in which changes are applied.
pub enum ApplicationStrategy {
    PriorityBased,
    SecurityFirst,
    CategoryBased,
    AllAtOnce,
}

/// How a diff is shown.
#[derive(Clone, Copy)]
pub enum DiffDisplayMode {
    /// Show all changes at once.
    Full,
    /// Use the system pager.
    Paged,
    /// Show a summary first, then the details on request.
    Summary,
    /// Show changes one by one with prompts.
    Interactive,
    /// Condensed view with fewer context lines.
    Compact,
}

/// How urgent a change is.
pub enum PriorityRecommendation {
    Immediate,
    High,
    Medium,
    Low,
}

/// The result of an analysis.
pub enum AnalysisStatus {
    Success,
    PartialSuccess(String),
    Failed(()),
}

/// The commands of the program.
pub enum Commands {
    Init,
    Analyze { repo: Option<String>, tags: Vec<String>, profile: Option<String> },
    List,
    Dashboard { port: u16 },
    Validate,
    History { repo: Option<String>, days: u32 },
}

} // verus!
