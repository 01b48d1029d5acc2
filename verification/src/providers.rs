//! What the language-model providers' streams mean: the items that their
//! events give, the errors of failed requests, and the messages they are sent.

use vstd::prelude::*;
use crate::errors::{owned, opt_view};
use crate::helpers::Message;
use crate::scan::{contains_text, RepoScanner};
use crate::stream::{sse_data, sse_payload, AiProviderError, AnthropicError, StreamItem};
use crate::text::{decimal, push_decimal_wide, str_eq, string_views, to_chars};

verus! {

/// The text that marks the data of a `message_stop` event.
pub open spec fn message_stop_mark() -> Seq<char> {
    "\"type\":\"message_stop\""@
}

/// The data of a line of the Anthropic stream that carries an event to decode:
/// that of a `data: ` line, unless it is `[DONE]` or a `message_stop` event.
pub open spec fn event_data(line: Seq<char>) -> Option<Seq<char>> {
    match sse_data(line) {
        Some(d) => if contains_text(d, message_stop_mark()) {
            None
        } else {
            Some(d)
        },
        None => None,
    }
}

/// The data of a line of the Anthropic stream that carries an event to decode.
pub fn event_payload(line: &str) -> (res: Option<String>)
    ensures
        opt_view(res) == event_data(line@),
{
    match sse_payload(line) {
        Some(d) => {
            let dc = to_chars(d.as_str());
            let mark = to_chars("\"type\":\"message_stop\"");
            if RepoScanner::contains_chars(dc.as_slice(), mark.as_slice()) {
                None
            } else {
                Some(d)
            }
        },
        None => None,
    }
}

/// An event of the Anthropic message stream, with the values that the
/// stream reads from it.
pub enum StreamEventData {
    /// The message starts; the tokens its usage reports.
    MessageStart { input_tokens: u32, output_tokens: u32 },
    ContentBlockStart,
    ContentBlockStop,
    MessageStop,
    Ping,
    /// A piece of the answer.
    ContentBlockDelta { delta_type: String, text: Option<String> },
    /// A change of the message; a stop reason ends the answer.
    MessageDelta { stop_reason: Option<String>, output_tokens: u32 },
    /// An error that the service reports.
    Error { error_type: String, message: String },
}

/// The item carries no text, does not end the answer and reports no tokens.
pub open spec fn blank_item(item: StreamItem) -> bool {
    item.content@ == Seq::<char>::empty() && !item.is_complete && item.stop_reason is None
        && item.input_tokens is None && item.output_tokens is None
}

/// The item, or the error, that an event of the message stream gives; `Err`
/// holds the message of a data that could not be decoded.
pub fn stream_event_item(event: Result<StreamEventData, String>) -> (res: Result<StreamItem, AiProviderError>)
    ensures
        match event {
            Ok(StreamEventData::MessageStart { input_tokens, output_tokens }) => res matches Ok(item)
                && item.content@ == Seq::<char>::empty() && !item.is_complete && item.stop_reason is None
                && item.input_tokens == Some(input_tokens) && item.output_tokens == Some(output_tokens),
            Ok(StreamEventData::ContentBlockDelta { delta_type, text }) => res matches Ok(item)
                && !item.is_complete && item.stop_reason is None && item.input_tokens is None
                && item.output_tokens is None && item.content@ == (if delta_type@ == "text_delta"@ {
                match opt_view(text) {
                    Some(t) => t,
                    None => Seq::empty(),
                }
            } else {
                Seq::empty()
            }),
            Ok(StreamEventData::MessageDelta { stop_reason, output_tokens }) => res matches Ok(item)
                && item.content@ == Seq::<char>::empty() && item.input_tokens is None && match opt_view(
                stop_reason,
            ) {
                Some(r) => item.is_complete && opt_view(item.stop_reason) == Some(r)
                    && item.output_tokens == Some(output_tokens),
                None => !item.is_complete && item.stop_reason is None && item.output_tokens is None,
            },
            Ok(StreamEventData::MessageStop) => res matches Ok(item) && item.content@
                == Seq::<char>::empty() && item.is_complete && item.stop_reason is None
                && item.input_tokens is None && item.output_tokens is None,
            Ok(StreamEventData::Error { error_type, message }) => res matches Err(
                AiProviderError::ApiError(m),
            ) && m@ == error_type@ + ": "@ + message@,
            Ok(_) => res matches Ok(item) && blank_item(item),
            Err(e) => res matches Err(AiProviderError::SerializationError(m)) && m@
                == "Failed to parse event: "@ + e@,
        },
{
    proof {
        reveal_strlit("");
    }
    match event {
        Ok(StreamEventData::MessageStart { input_tokens, output_tokens }) => {
            Ok(StreamItem::with_tokens(String::new(), Some(input_tokens), Some(output_tokens)))
        },
        Ok(StreamEventData::ContentBlockDelta { delta_type, text }) => {
            if str_eq(delta_type.as_str(), "text_delta") {
                match text {
                    Some(t) => Ok(StreamItem::new(t)),
                    None => Ok(StreamItem::new(String::new())),
                }
            } else {
                Ok(StreamItem::new(String::new()))
            }
        },
        Ok(StreamEventData::MessageDelta { stop_reason, output_tokens }) => {
            match stop_reason {
                Some(r) => Ok(StreamItem::finished(String::new(), Some(r), output_tokens)),
                None => Ok(StreamItem::new(String::new())),
            }
        },
        Ok(StreamEventData::MessageStop) => Ok(StreamItem::complete(String::new(), None)),
        Ok(StreamEventData::Error { error_type, message }) => {
            let mut m = error_type;
            m.append(": ");
            m.append(message.as_str());
            Err(AiProviderError::ApiError(m))
        },
        Ok(_) => Ok(StreamItem::new(String::new())),
        Err(e) => {
            let mut m = owned("Failed to parse event: ");
            m.append(e.as_str());
            Err(AiProviderError::SerializationError(m))
        },
    }
}

/// The chat-completion services whose streamed chunks the library reads.
#[derive(Clone, Copy)]
pub enum ChatProvider {
    OpenAI,
    DeepSeek,
    Gemini,
}

/// The error object of a chunk: its message, its type and its code, each
/// when it is present with the right kind of value.
pub struct ChunkError {
    pub message: Option<String>,
    pub error_type: Option<String>,
    pub code: Option<i64>,
}

/// What the stream reads of one decoded chunk. `first_text` and
/// `first_finish_reason` are the text and the finish reason of the first
/// choice (the first part of the first candidate for Gemini), each when it is
/// a string; the token counts are those of the usage object, each when it is
/// a whole number; `error` is the error object, when the chunk has one.
pub struct ChunkFields {
    pub first_text: Option<String>,
    pub first_finish_reason: Option<String>,
    pub input_tokens: Option<u64>,
    pub output_tokens: Option<u64>,
    pub error: Option<ChunkError>,
}

/// The name of the service in its decoding error.
pub open spec fn provider_name(p: ChatProvider) -> Seq<char> {
    match p {
        ChatProvider::OpenAI => "OpenAI"@,
        ChatProvider::DeepSeek => "DeepSeek"@,
        ChatProvider::Gemini => "Gemini"@,
    }
}

/// `n` in decimal with a leading `-` when negative.
pub open spec fn signed_decimal(n: int) -> Seq<char> {
    if n < 0 {
        "-"@ + decimal((-n) as nat)
    } else {
        decimal(n as nat)
    }
}

/// `o`'s text, or `d` when there is none.
pub open spec fn or_text(o: Option<String>, d: Seq<char>) -> Seq<char> {
    match o {
        Some(s) => s@,
        None => d,
    }
}

/// The message of an error object of a chunk.
pub open spec fn chunk_error_text(p: ChatProvider, e: ChunkError) -> Seq<char> {
    match p {
        ChatProvider::Gemini => "Code "@ + signed_decimal(
            match e.code {
                Some(c) => c as int,
                None => 0,
            },
        ) + ": "@ + or_text(e.message, "Unknown error"@),
        _ => or_text(e.error_type, "api_error"@) + ": "@ + or_text(e.message, "Unknown error"@),
    }
}

/// The finish reason ends the answer: any reason for Gemini, a reason other
/// than `"null"` for the others.
pub open spec fn ends_answer(p: ChatProvider, reason: Seq<char>) -> bool {
    match p {
        ChatProvider::Gemini => true,
        _ => reason != "null"@,
    }
}

/// The service reports token usage in its chunks.
pub open spec fn reports_usage(p: ChatProvider) -> bool {
    match p {
        ChatProvider::OpenAI => false,
        _ => true,
    }
}

/// What a decoded chunk gives, in the order the stream looks: the text of
/// the first choice; its finish reason, when that ends the answer; the token
/// counts, for a service that reports them and when there is one; the error
/// object; else nothing.
pub open spec fn chunk_outcome(p: ChatProvider, c: ChunkFields, res: Option<Result<StreamItem, AiProviderError>>) -> bool {
    match c.first_text {
        Some(t) => res matches Some(Ok(item)) && item.content@ == t@ && !item.is_complete
            && item.stop_reason is None && item.input_tokens is None && item.output_tokens is None,
        None => if c.first_finish_reason is Some && ends_answer(p, c.first_finish_reason->0@) {
            res matches Some(Ok(item)) && item.content@ == Seq::<char>::empty() && item.is_complete
                && opt_view(item.stop_reason) == Some(c.first_finish_reason->0@)
                && item.input_tokens is None && item.output_tokens == Some(0u32)
        } else if reports_usage(p) && (c.input_tokens is Some || c.output_tokens is Some) {
            res matches Some(Ok(item)) && item.content@ == Seq::<char>::empty() && !item.is_complete
                && item.stop_reason is None && item.input_tokens == (match c.input_tokens {
                Some(n) => Some(n as u32),
                None => None,
            }) && item.output_tokens == (match c.output_tokens {
                Some(n) => Some(n as u32),
                None => None,
            })
        } else {
            match c.error {
                Some(e) => res matches Some(Err(AiProviderError::ApiError(m))) && m@
                    == chunk_error_text(p, e),
                None => res is None,
            }
        },
    }
}

/// A token count as the stream keeps it: its low 32 bits (`as u32`).
fn low_bits(o: Option<u64>) -> (res: Option<u32>)
    ensures
        res == (match o {
            Some(n) => Some(n as u32),
            None => None,
        }),
{
    match o {
        Some(n) => Some(#[verifier::truncate] (n as u32)),
        None => None,
    }
}

/// Appends `n` in decimal, with a leading `-` when negative.
fn push_signed(s: &mut String, n: i64)
    ensures
        final(s)@ == old(s)@ + signed_decimal(n as int),
{
    if n < 0 {
        s.append("-");
        let m: u128 = (0i128 - (n as i128)) as u128;
        push_decimal_wide(s, m);
    } else {
        push_decimal_wide(s, n as u128);
    }
}

/// The message of an error object of a chunk.
fn chunk_error_message(p: ChatProvider, e: &ChunkError) -> (res: String)
    ensures
        res@ == chunk_error_text(p, *e),
{
    let message = match &e.message {
        Some(m) => m.as_str(),
        None => "Unknown error",
    };
    match p {
        ChatProvider::Gemini => {
            let mut s = owned("Code ");
            let code: i64 = match e.code {
                Some(c) => c,
                None => 0,
            };
            push_signed(&mut s, code);
            s.append(": ");
            s.append(message);
            s
        },
        _ => {
            let mut s = match &e.error_type {
                Some(t) => owned(t.as_str()),
                None => owned("api_error"),
            };
            s.append(": ");
            s.append(message);
            s
        },
    }
}

/// The item, the error or nothing that a chunk of a chat-completion stream
/// gives; `Err` holds the message of a data that could not be decoded.
pub fn chunk_item(p: ChatProvider, chunk: Result<ChunkFields, String>) -> (res: Option<Result<StreamItem, AiProviderError>>)
    ensures
        match chunk {
            Ok(c) => chunk_outcome(p, c, res),
            Err(e) => res matches Some(Err(AiProviderError::SerializationError(m))) && m@
                == "Failed to parse "@ + provider_name(p) + " event: "@ + e@,
        },
{
    proof {
        reveal_strlit("");
    }
    match chunk {
        Err(e) => {
            let mut m = owned("Failed to parse ");
            match p {
                ChatProvider::OpenAI => m.append("OpenAI"),
                ChatProvider::DeepSeek => m.append("DeepSeek"),
                ChatProvider::Gemini => m.append("Gemini"),
            }
            m.append(" event: ");
            m.append(e.as_str());
            Some(Err(AiProviderError::SerializationError(m)))
        },
        Ok(c) => {
            let ChunkFields { first_text, first_finish_reason, input_tokens, output_tokens, error } = c;
            if let Some(t) = first_text {
                return Some(Ok(StreamItem::new(t)));
            }
            if let Some(r) = first_finish_reason {
                let ends = match p {
                    ChatProvider::Gemini => true,
                    _ => !str_eq(r.as_str(), "null"),
                };
                if ends {
                    return Some(Ok(StreamItem::finished(String::new(), Some(r), 0)));
                }
            }
            let usage = match p {
                ChatProvider::OpenAI => false,
                _ => true,
            };
            if usage && (input_tokens.is_some() || output_tokens.is_some()) {
                return Some(Ok(StreamItem::with_tokens(String::new(), low_bits(input_tokens), low_bits(output_tokens))));
            }
            match error {
                Some(e) => Some(Err(AiProviderError::ApiError(chunk_error_message(p, &e)))),
                None => None,
            }
        },
    }
}

/// A message as its role and its text.
pub open spec fn message_view(m: Message) -> (Seq<char>, Seq<char>) {
    (m.role@, m.content@)
}

/// The views of messages.
pub open spec fn message_views(ms: Seq<Message>) -> Seq<(Seq<char>, Seq<char>)> {
    ms.map_values(|m: Message| message_view(m))
}

/// The messages of a chat: the system prompt, under `system_role`, when it is
/// not empty, then each user prompt under the role `user`.
pub open spec fn prompt_messages(system_role: Seq<char>, system_prompt: Seq<char>, prompts: Seq<Seq<char>>) -> Seq<(Seq<char>, Seq<char>)> {
    (if system_prompt.len() > 0 {
        seq![(system_role, system_prompt)]
    } else {
        Seq::empty()
    }) + prompts.map_values(|p: Seq<char>| ("user"@, p))
}

/// The messages of a chat: the system prompt under `system_role` when it is
/// not empty (`system` for OpenAI and DeepSeek, `user` for Gemini), then the
/// user prompts.
pub fn chat_messages(system_role: &str, system_prompt: String, user_prompts: Vec<String>) -> (res: Vec<Message>)
    ensures
        message_views(res@) == prompt_messages(system_role@, system_prompt@, string_views(user_prompts@)),
{
    let mut out: Vec<Message> = Vec::new();
    let ghost head: Seq<(Seq<char>, Seq<char>)> = if system_prompt@.len() > 0 {
        seq![(system_role@, system_prompt@)]
    } else {
        Seq::empty()
    };
    if system_prompt.unicode_len() > 0 {
        out.push(Message { role: owned(system_role), content: system_prompt });
    }
    assert(message_views(out@) =~= head);
    let ghost ps = string_views(user_prompts@);
    let mut i: usize = 0;
    while i < user_prompts.len()
        invariant
            i <= user_prompts@.len(),
            ps == string_views(user_prompts@),
            message_views(out@) == head + ps.take(i as int).map_values(|p: Seq<char>| ("user"@, p)),
        decreases user_prompts@.len() - i,
    {
        let ghost before = message_views(out@);
        out.push(Message { role: owned("user"), content: user_prompts[i].clone() });
        assert(message_views(out@) =~= before.push(("user"@, ps[i as int])));
        assert(ps.take(i + 1).map_values(|p: Seq<char>| ("user"@, p)) =~= ps.take(i as int).map_values(
            |p: Seq<char>| ("user"@, p),
        ).push(("user"@, ps[i as int])));
        i = i + 1;
    }
    assert(ps.take(i as int) =~= ps);
    out
}

/// A message as the Anthropic service takes it: a system message becomes a
/// user message that wraps its text and asks to follow it.
pub open spec fn anthropic_view(m: (Seq<char>, Seq<char>)) -> (Seq<char>, Seq<char>) {
    if m.0 == "system"@ {
        (
            "user"@,
            "<system>"@ + m.1
                + "</system>\n\nPlease follow the instructions in the system message above."@,
        )
    } else {
        m
    }
}

/// The messages of a conversation as the Anthropic service takes them.
pub fn anthropic_messages(messages: &Vec<Message>) -> (res: Vec<Message>)
    ensures
        message_views(res@) == message_views(messages@).map_values(
            |m: (Seq<char>, Seq<char>)| anthropic_view(m),
        ),
{
    let mut out: Vec<Message> = Vec::new();
    let ghost ms = message_views(messages@);
    let mut i: usize = 0;
    while i < messages.len()
        invariant
            i <= messages@.len(),
            ms == message_views(messages@),
            message_views(out@) == ms.take(i as int).map_values(|m: (Seq<char>, Seq<char>)| anthropic_view(m)),
        decreases messages@.len() - i,
    {
        let m = &messages[i];
        let ghost before = message_views(out@);
        if str_eq(m.role.as_str(), "system") {
            let mut content = owned("<system>");
            content.append(m.content.as_str());
            content.append("</system>\n\nPlease follow the instructions in the system message above.");
            out.push(Message { role: owned("user"), content });
        } else {
            out.push(Message { role: m.role.clone(), content: m.content.clone() });
        }
        assert(message_views(out@) =~= before.push(anthropic_view(ms[i as int])));
        assert(ms.take(i + 1).map_values(|m: (Seq<char>, Seq<char>)| anthropic_view(m)) =~= ms.take(
            i as int,
        ).map_values(|m: (Seq<char>, Seq<char>)| anthropic_view(m)).push(anthropic_view(ms[i as int])));
        i = i + 1;
    }
    assert(ms.take(i as int) =~= ms);
    out
}

/// The number of bytes of a text in UTF-8.
pub open spec fn bytes_of(s: Seq<char>) -> nat {
    vstd::utf8::encode_utf8(s).len()
}

/// The bytes of the first `n` prompts.
pub open spec fn prompt_bytes(ps: Seq<Seq<char>>, n: int) -> nat
    decreases n,
{
    if n <= 0 || n > ps.len() {
        0
    } else {
        prompt_bytes(ps, n - 1) + bytes_of(ps[n - 1])
    }
}

/// The bytes of the prompts, with the system prompt.
pub open spec fn all_prompt_bytes(system_prompt: Seq<char>, prompts: Seq<Seq<char>>) -> nat {
    bytes_of(system_prompt) + prompt_bytes(prompts, prompts.len() as int)
}

/// The rough count of input tokens that a service without a counting
/// endpoint gets: one token for four bytes of prompt text.
pub fn estimated_tokens(system_prompt: &str, user_prompts: &Vec<String>) -> (res: usize)
    requires
        all_prompt_bytes(system_prompt@, string_views(user_prompts@)) <= usize::MAX,
    ensures
        res == all_prompt_bytes(system_prompt@, string_views(user_prompts@)) / 4,
{
    let ghost ps = string_views(user_prompts@);
    let mut total: usize = system_prompt.len();
    let mut i: usize = 0;
    while i < user_prompts.len()
        invariant
            i <= user_prompts@.len(),
            ps == string_views(user_prompts@),
            all_prompt_bytes(system_prompt@, ps) <= usize::MAX,
            total == bytes_of(system_prompt@) + prompt_bytes(ps, i as int),
        decreases user_prompts@.len() - i,
    {
        proof {
            lemma_prompt_bytes_grow(ps, i + 1, ps.len() as int);
        }
        let n = user_prompts[i].as_str().len();
        assert(ps[i as int] == user_prompts@[i as int]@);
        total = total + n;
        i = i + 1;
    }
    total / 4
}

/// More prompts take more bytes.
proof fn lemma_prompt_bytes_grow(ps: Seq<Seq<char>>, i: int, j: int)
    requires
        0 <= i <= j <= ps.len(),
    ensures
        prompt_bytes(ps, i) <= prompt_bytes(ps, j),
    decreases j - i,
{
    if i < j {
        lemma_prompt_bytes_grow(ps, i, j - 1);
    }
}

/// The message of a request that a service answered with a failing status:
/// `None` for an authentication failure (401), whose error holds the body
/// alone. `rate_limit` adds the case 429, `request_checks` the cases 400 and
/// 403; every other status gives `"HTTP "`, the status as text and the body.
pub open spec fn status_message(status: u16, status_text: Seq<char>, body: Seq<char>, rate_limit: bool, request_checks: bool) -> Option<Seq<char>> {
    if request_checks && status == 400 {
        Some("Bad request: "@ + body)
    } else if status == 401 {
        None
    } else if request_checks && status == 403 {
        Some("Forbidden: "@ + body)
    } else if rate_limit && status == 429 {
        Some("Rate limit exceeded: "@ + body)
    } else {
        Some("HTTP "@ + status_text + ": "@ + body)
    }
}

/// The error of a request that a chat-completion service answered with a
/// failing status; `status_text` is the status as text (`"404 Not Found"`)
/// and `body` the text of the answer.
pub fn status_error(status: u16, status_text: &str, body: String, rate_limit: bool, request_checks: bool) -> (res: AiProviderError)
    ensures
        match status_message(status, status_text@, body@, rate_limit, request_checks) {
            Some(m) => res matches AiProviderError::ApiError(e) && e@ == m,
            None => res matches AiProviderError::AuthenticationError(e) && e@ == body@,
        },
{
    if request_checks && status == 400 {
        let mut m = owned("Bad request: ");
        m.append(body.as_str());
        AiProviderError::ApiError(m)
    } else if status == 401 {
        AiProviderError::AuthenticationError(body)
    } else if request_checks && status == 403 {
        let mut m = owned("Forbidden: ");
        m.append(body.as_str());
        AiProviderError::ApiError(m)
    } else if rate_limit && status == 429 {
        let mut m = owned("Rate limit exceeded: ");
        m.append(body.as_str());
        AiProviderError::ApiError(m)
    } else {
        let mut m = owned("HTTP ");
        m.append(status_text);
        m.append(": ");
        m.append(body.as_str());
        AiProviderError::ApiError(m)
    }
}

/// The error of a request that the Anthropic service answered with a failing status.
pub fn anthropic_status_error(status: u16, status_text: &str, body: String) -> (res: AnthropicError)
    ensures
        match status_message(status, status_text@, body@, false, false) {
            Some(m) => res matches AnthropicError::ApiError(e) && e@ == m,
            None => res matches AnthropicError::AuthenticationError(e) && e@ == body@,
        },
{
    if status == 401 {
        AnthropicError::AuthenticationError(body)
    } else {
        let mut m = owned("HTTP ");
        m.append(status_text);
        m.append(": ");
        m.append(body.as_str());
        AnthropicError::ApiError(m)
    }
}

/// `s` without the characters `c` at its end (`trim_end_matches`).
pub open spec fn strip_end(s: Seq<char>, c: char) -> Seq<char>
    decreases s.len(),
{
    if s.len() > 0 && s.last() == c {
        strip_end(s.drop_last(), c)
    } else {
        s
    }
}

/// `s` without the characters `c` at its start (`trim_start_matches`).
pub open spec fn strip_start(s: Seq<char>, c: char) -> Seq<char>
    decreases s.len(),
{
    if s.len() > 0 && s[0] == c {
        strip_start(s.drop_first(), c)
    } else {
        s
    }
}

/// The URL of an endpoint of the analysis service: the base without its
/// trailing slashes, one slash, the endpoint without its leading slashes.
pub fn endpoint_url(base_url: &str, endpoint: &str) -> (res: String)
    ensures
        res@ == strip_end(base_url@, '/') + "/"@ + strip_start(endpoint@, '/'),
{
    let b = to_chars(base_url);
    let mut hi = b.len();
    assert(b@.take(hi as int) =~= b@);
    while hi > 0 && b[hi - 1] == '/'
        invariant
            hi <= b@.len(),
            b@ == base_url@,
            strip_end(b@.take(hi as int), '/') == strip_end(base_url@, '/'),
        decreases hi,
    {
        assert(b@.take(hi - 1) =~= b@.take(hi as int).drop_last());
        hi = hi - 1;
    }
    let e = to_chars(endpoint);
    let mut lo: usize = 0;
    assert(e@.skip(0) =~= e@);
    while lo < e.len() && e[lo] == '/'
        invariant
            lo <= e@.len(),
            e@ == endpoint@,
            strip_start(e@.skip(lo as int), '/') == strip_start(endpoint@, '/'),
        decreases e@.len() - lo,
    {
        assert(e@.skip(lo + 1) =~= e@.skip(lo as int).drop_first());
        lo = lo + 1;
    }
    let head = crate::text::copy_range(b.as_slice(), 0, hi);
    let tail = crate::text::copy_range(e.as_slice(), lo, e.len());
    let mut url = crate::text::from_chars(head.as_slice());
    url.append("/");
    crate::text::push_chars(&mut url, tail.as_slice());
    assert(head@ == strip_end(base_url@, '/'));
    assert(tail@ =~= e@.skip(lo as int));
    url
}

/// The body of an answer of the analysis service.
pub struct ApiResponse<R> {
    pub success: bool,
    pub message: String,
    pub data: Option<R>,
}

/// How the analysis service answered a request.
pub enum PostReply<R> {
    /// The request could not be sent.
    NotSent,
    /// Status 200, with its body decoded, or `None` when it could not be.
    Success { decoded: Option<ApiResponse<R>> },
    /// Another status: its code, its text (`"408 Request Timeout"`) and the
    /// text of the answer (`"Unknown error"` when it could not be read).
    Failure { status: u16, status_text: String, body: String },
}

/// `e` is `system_error("analysis Error", reason)`.
pub open spec fn is_analysis_error(e: crate::errors::AicedError, reason: Seq<char>) -> bool {
    e matches crate::errors::AicedError::SystemError { operation, reason: r } && operation@
        == "analysis Error"@ && r@ == reason
}

/// What a request named `op` to the analysis service gives: the decoded body
/// when the service answered 200 with a body that reports success, else the
/// error of the failure.
pub fn post_outcome<R>(op: &str, reply: PostReply<R>) -> (res: crate::errors::AicedResult<ApiResponse<R>>)
    ensures
        match reply {
            PostReply::NotSent => res matches Err(e) && is_analysis_error(
                e,
                "Failed to connect to "@ + op@ + " server"@,
            ),
            PostReply::Success { decoded: None } => res matches Err(e) && is_analysis_error(
                e,
                "Invalid response format from "@ + op@ + " server"@,
            ),
            PostReply::Success { decoded: Some(b) } => if b.success {
                res matches Ok(r) && r == b
            } else {
                res matches Err(e) && is_analysis_error(e, op@ + " failed: "@ + b.message@)
            },
            PostReply::Failure { status, status_text, body } => if status == 408 {
                res matches Err(e) && is_analysis_error(e, op@ + " request timed out (408)"@)
            } else {
                res matches Err(e) && is_analysis_error(
                    e,
                    op@ + " request failed with status "@ + status_text@ + ": "@ + body@,
                )
            },
        },
{
    match reply {
        PostReply::NotSent => {
            let mut m = owned("Failed to connect to ");
            m.append(op);
            m.append(" server");
            Err(crate::errors::AicedError::system_error("analysis Error", m.as_str()))
        },
        PostReply::Success { decoded: None } => {
            let mut m = owned("Invalid response format from ");
            m.append(op);
            m.append(" server");
            Err(crate::errors::AicedError::system_error("analysis Error", m.as_str()))
        },
        PostReply::Success { decoded: Some(b) } => {
            if b.success {
                Ok(b)
            } else {
                let mut m = owned(op);
                m.append(" failed: ");
                m.append(b.message.as_str());
                Err(crate::errors::AicedError::system_error("analysis Error", m.as_str()))
            }
        },
        PostReply::Failure { status, status_text, body } => {
            if status == 408 {
                let mut m = owned(op);
                m.append(" request timed out (408)");
                Err(crate::errors::AicedError::system_error("analysis Error", m.as_str()))
            } else {
                let mut m = owned(op);
                m.append(" request failed with status ");
                m.append(status_text.as_str());
                m.append(": ");
                m.append(body.as_str());
                Err(crate::errors::AicedError::system_error("analysis Error", m.as_str()))
            }
        },
    }
}

/// The data of an answer of the analysis service to a request named `op`.
pub fn extract_data<R>(op: &str, response: ApiResponse<R>) -> (res: crate::errors::AicedResult<R>)
    ensures
        match response.data {
            Some(d) => res matches Ok(r) && r == d,
            None => res matches Err(e) && is_analysis_error(
                e,
                "API response missing data field for "@ + op@,
            ),
        },
{
    match response.data {
        Some(d) => Ok(d),
        None => {
            let mut m = owned("API response missing data field for ");
            m.append(op);
            Err(crate::errors::AicedError::system_error("analysis Error", m.as_str()))
        },
    }
}

/// The lines, each followed by a newline, one after the other.
pub open spec fn newline_joined(ls: Seq<Seq<char>>) -> Seq<char>
    decreases ls.len(),
{
    if ls.len() == 0 {
        Seq::empty()
    } else {
        newline_joined(ls.drop_last()) + ls.last() + seq!['\n']
    }
}

/// Takes from the buffer of a stream the lines that a newline has ended, in
/// order and without their newlines, and keeps in the buffer the text after
/// the last newline.
pub fn take_lines(buffer: &mut String) -> (lines: Vec<String>)
    ensures
        old(buffer)@ == newline_joined(string_views(lines@)) + final(buffer)@,
        !crate::text::has_char(final(buffer)@, '\n'),
        forall|i: int| 0 <= i < lines@.len() ==> !crate::text::has_char(#[trigger] lines@[i]@, '\n'),
{
    let cs = to_chars(buffer.as_str());
    let mut lines: Vec<String> = Vec::new();
    let mut start: usize = 0;
    let mut i: usize = 0;
    while i < cs.len()
        invariant
            start <= i <= cs@.len(),
            cs@ == old(buffer)@,
            newline_joined(string_views(lines@)) == cs@.take(start as int),
            forall|k: int| start <= k < i ==> cs@[k] != '\n',
            forall|k: int| 0 <= k < lines@.len() ==> !crate::text::has_char(#[trigger] lines@[k]@, '\n'),
        decreases cs@.len() - i,
    {
        if cs[i] == '\n' {
            let line = crate::text::copy_range(cs.as_slice(), start, i);
            let ghost before = string_views(lines@);
            let s = crate::text::from_chars(line.as_slice());
            proof {
                assert forall|k: int| 0 <= k < s@.len() implies s@[k] != '\n' by {
                    assert(s@[k] == cs@[start + k]);
                }
            }
            lines.push(s);
            assert(string_views(lines@) =~= before.push(line@));
            assert(string_views(lines@).drop_last() =~= before);
            assert(newline_joined(string_views(lines@)) == newline_joined(before) + line@ + seq!['\n']);
            assert(cs@.take(i + 1) =~= cs@.take(start as int) + line@ + seq!['\n']);
            start = i + 1;
        }
        i = i + 1;
    }
    let rest = crate::text::copy_range(cs.as_slice(), start, cs.len());
    assert(cs@ =~= cs@.take(start as int) + rest@);
    *buffer = crate::text::from_chars(rest.as_slice());
    proof {
        assert forall|k: int| 0 <= k < rest@.len() implies rest@[k] != '\n' by {
            assert(rest@[k] == cs@[start + k]);
        }
    }
    lines
}

} // verus!
