//! The errors of I/O, JSON, TOML and HTTP as errors of the library.
//!
//! The text and the position of an outside error come from its own methods;
//! nothing here states what they hold.

use vstd::prelude::*;
use crate::errors::{AicedError, owned};
use vstd::std_specs::convert::FromSpecImpl;

verus! {

#[verifier::external_type_specification]
#[verifier::external_body]
pub struct ExIoError(std::io::Error);

#[verifier::external_type_specification]
#[verifier::external_body]
pub struct ExJsonError(serde_json::Error);

#[verifier::external_type_specification]
#[verifier::external_body]
pub struct ExTomlError(toml::de::Error);

#[verifier::external_type_specification]
#[verifier::external_body]
pub struct ExHttpError(reqwest::Error);

/// `Display` of an I/O error: its message. What the text holds is not stated.
#[verifier::external_body]
fn io_error_text(e: &std::io::Error) -> String {
    e.to_string()
}

/// `serde_json::Error::line`: the one-based line at which the error was
/// detected. Which line that is is not stated.
#[verifier::external_body]
fn json_error_line(e: &serde_json::Error) -> usize {
    e.line()
}

/// `Display` of a JSON error: its message and position. What the text holds is not stated.
#[verifier::external_body]
fn json_error_text(e: &serde_json::Error) -> String {
    e.to_string()
}

/// `toml::de::Error::message`: what went wrong. What the text holds is not stated.
#[verifier::external_body]
fn toml_error_message(e: &toml::de::Error) -> String {
    e.message().to_string()
}

/// `reqwest::Error::url`, as text: the URL of the request that failed, if the
/// error has one. Which URL is not stated.
#[verifier::external_body]
fn http_error_url(e: &reqwest::Error) -> Option<String> {
    e.url().map(|u| u.to_string())
}

/// `reqwest::Error::status`, as a number: the status of the response that
/// failed, if the error came from one. Which status is not stated.
#[verifier::external_body]
fn http_error_status(e: &reqwest::Error) -> Option<u16> {
    e.status().map(|s| s.as_u16())
}

/// `Display` of an HTTP error. What the text holds is not stated.
#[verifier::external_body]
fn http_error_text(e: &reqwest::Error) -> String {
    e.to_string()
}

/// The text that `format!("{:?}", e)` gives, through the `Debug` impl that
/// `derive` writes for `AicedError`: the variant's name and its fields, a
/// function of the error alone. What the text holds is not stated here.
pub uninterp spec fn debug_rendering(e: AicedError) -> Seq<char>;

/// `format!("{:?}", e)` with the derived `Debug` impl: the claim is that the
/// text is `debug_rendering(*e)`, the same for equal errors.
#[verifier::external_body]
pub(crate) fn debug_text(e: &AicedError) -> (res: String)
    ensures
        res@ == debug_rendering(*e),
{
    format!("{:?}", e)
}

impl AicedError {
    /// An I/O failure: a system error of the operation `"I/O operation"`.
    pub fn from_io(error: &std::io::Error) -> (res: AicedError)
        ensures
            res matches AicedError::SystemError { operation, .. } && operation@ == "I/O operation"@,
    {
        AicedError::SystemError { operation: owned("I/O operation"), reason: io_error_text(error) }
    }

    /// A JSON failure: a parse error of `"JSON"` with the line of the error and no context.
    pub fn from_json(error: &serde_json::Error) -> (res: AicedError)
        ensures
            res matches AicedError::ParseError { content_type, line_number, context, .. }
                && content_type@ == "JSON"@ && line_number is Some && context is None,
    {
        AicedError::ParseError {
            content_type: owned("JSON"),
            line_number: Some(json_error_line(error)),
            reason: json_error_text(error),
            context: None,
        }
    }

    /// A TOML failure: a parse error of `"TOML"` with its message, no line and no context.
    pub fn from_toml(error: &toml::de::Error) -> (res: AicedError)
        ensures
            res matches AicedError::ParseError { content_type, line_number, context, .. }
                && content_type@ == "TOML"@ && line_number is None && context is None,
    {
        AicedError::ParseError {
            content_type: owned("TOML"),
            line_number: None,
            reason: toml_error_message(error),
            context: None,
        }
    }

    /// An HTTP failure: a network error of the operation `"HTTP request"`.
    pub fn from_http(error: &reqwest::Error) -> (res: AicedError)
        ensures
            res matches AicedError::NetworkError { operation, .. } && operation@ == "HTTP request"@,
    {
        AicedError::NetworkError {
            operation: owned("HTTP request"),
            url: http_error_url(error),
            status_code: http_error_status(error),
            reason: http_error_text(error),
        }
    }
}

impl From<std::io::Error> for AicedError {
    fn from(error: std::io::Error) -> (res: AicedError) {
        AicedError::from_io(&error)
    }
}

impl FromSpecImpl<std::io::Error> for AicedError {
    open spec fn obeys_from_spec() -> bool {
        false
    }

    open spec fn from_spec(v: std::io::Error) -> AicedError {
        arbitrary()
    }
}

impl From<serde_json::Error> for AicedError {
    fn from(error: serde_json::Error) -> (res: AicedError) {
        AicedError::from_json(&error)
    }
}

impl FromSpecImpl<serde_json::Error> for AicedError {
    open spec fn obeys_from_spec() -> bool {
        false
    }

    open spec fn from_spec(v: serde_json::Error) -> AicedError {
        arbitrary()
    }
}

impl From<toml::de::Error> for AicedError {
    fn from(error: toml::de::Error) -> (res: AicedError) {
        AicedError::from_toml(&error)
    }
}

impl FromSpecImpl<toml::de::Error> for AicedError {
    open spec fn obeys_from_spec() -> bool {
        false
    }

    open spec fn from_spec(v: toml::de::Error) -> AicedError {
        arbitrary()
    }
}

impl From<reqwest::Error> for AicedError {
    fn from(error: reqwest::Error) -> (res: AicedError) {
        AicedError::from_http(&error)
    }
}

impl FromSpecImpl<reqwest::Error> for AicedError {
    open spec fn obeys_from_spec() -> bool {
        false
    }

    open spec fn from_spec(v: reqwest::Error) -> AicedError {
        arbitrary()
    }
}

} // verus!
