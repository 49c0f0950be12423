//! Driver errors and the serialisable error response sent to the user
//! interface.
use crate::text::{push_str, string_of, text_of};
use vstd::prelude::*;

verus! {

/// A driver failure, carrying a message for the user.
#[derive(Debug)]
pub enum DriverError {
    ConnectionFailed { message: String, user_message: String },
    QueryFailed { message: String, user_message: String },
    Unsupported { user_message: String },
    InvalidConfig { user_message: String },
    Internal { message: String, user_message: String },
}

/// The message for the user, whatever the variant.
pub open spec fn user_message_of(e: DriverError) -> Seq<char> {
    match e {
        DriverError::ConnectionFailed { user_message, .. } => user_message@,
        DriverError::QueryFailed { user_message, .. } => user_message@,
        DriverError::Unsupported { user_message } => user_message@,
        DriverError::InvalidConfig { user_message } => user_message@,
        DriverError::Internal { user_message, .. } => user_message@,
    }
}

/// The error code sent with a response.
pub open spec fn error_code_of(e: DriverError) -> Seq<char> {
    match e {
        DriverError::ConnectionFailed { .. } => "connection_failed"@,
        DriverError::QueryFailed { .. } => "query_failed"@,
        DriverError::Unsupported { .. } => "unsupported"@,
        DriverError::InvalidConfig { .. } => "invalid_config"@,
        DriverError::Internal { .. } => "internal"@,
    }
}

/// The technical detail sent with a response (none for configuration and
/// capability errors).
pub open spec fn error_detail_of(e: DriverError) -> Option<Seq<char>> {
    match e {
        DriverError::ConnectionFailed { message, .. } => Some(message@),
        DriverError::QueryFailed { message, .. } => Some(message@),
        DriverError::Unsupported { .. } => None,
        DriverError::InvalidConfig { .. } => None,
        DriverError::Internal { message, .. } => Some(message@),
    }
}

/// The one-line description of the error.
pub open spec fn driver_error_text(e: DriverError) -> Seq<char> {
    match e {
        DriverError::ConnectionFailed { message, .. } => "connection failed: "@ + message@,
        DriverError::QueryFailed { message, .. } => "query failed: "@ + message@,
        DriverError::Unsupported { user_message } => "unsupported operation: "@ + user_message@,
        DriverError::InvalidConfig { user_message } => "invalid configuration: "@
            + user_message@,
        DriverError::Internal { message, .. } => "internal error: "@ + message@,
    }
}

/// `prefix` followed by `rest`, as a new string.
pub fn prefixed(prefix: &str, rest: &str) -> (s: String)
    ensures
        s@ == prefix@ + rest@,
{
    let mut v: Vec<char> = Vec::new();
    push_str(&mut v, prefix);
    push_str(&mut v, rest);
    string_of(&v)
}

impl DriverError {
    /// The message for the user.
    pub fn user_message(&self) -> (s: &str)
        ensures
            s@ == user_message_of(*self),
    {
        match self {
            DriverError::ConnectionFailed { user_message, .. } => user_message.as_str(),
            DriverError::QueryFailed { user_message, .. } => user_message.as_str(),
            DriverError::Unsupported { user_message } => user_message.as_str(),
            DriverError::InvalidConfig { user_message } => user_message.as_str(),
            DriverError::Internal { user_message, .. } => user_message.as_str(),
        }
    }

    /// The one-line description of the error.
    pub fn describe(&self) -> (s: String)
        ensures
            s@ == driver_error_text(*self),
    {
        match self {
            DriverError::ConnectionFailed { message, .. } => prefixed(
                "connection failed: ",
                message.as_str(),
            ),
            DriverError::QueryFailed { message, .. } => prefixed("query failed: ", message.as_str()),
            DriverError::Unsupported { user_message } => prefixed(
                "unsupported operation: ",
                user_message.as_str(),
            ),
            DriverError::InvalidConfig { user_message } => prefixed(
                "invalid configuration: ",
                user_message.as_str(),
            ),
            DriverError::Internal { message, .. } => prefixed("internal error: ", message.as_str()),
        }
    }
}

/// An error as the user interface receives it.
#[derive(Clone, Debug)]
pub struct DriverErrorResponse {
    pub code: String,
    pub user_message: String,
    pub detail: Option<String>,
}

/// The view of an optional string.
pub open spec fn opt_view(o: Option<String>) -> Option<Seq<char>> {
    match o {
        Some(s) => Some(s@),
        None => None,
    }
}

/// `response` carries `code`, `user_message` and `detail`.
pub open spec fn response_is(
    r: DriverErrorResponse,
    code: Seq<char>,
    user_message: Seq<char>,
    detail: Option<Seq<char>>,
) -> bool {
    &&& r.code@ == code
    &&& r.user_message@ == user_message
    &&& opt_view(r.detail) == detail
}

impl DriverErrorResponse {
    /// The response for a driver error: its code, its user message, and its
    /// technical message as detail where it has one.
    pub fn from_error(err: &DriverError) -> (r: DriverErrorResponse)
        ensures
            response_is(r, error_code_of(*err), user_message_of(*err), error_detail_of(*err)),
    {
        let (code, detail) = match err {
            DriverError::ConnectionFailed { message, .. } => (
                text_of("connection_failed"),
                Some(message.clone()),
            ),
            DriverError::QueryFailed { message, .. } => (
                text_of("query_failed"),
                Some(message.clone()),
            ),
            DriverError::Unsupported { .. } => (text_of("unsupported"), None),
            DriverError::InvalidConfig { .. } => (text_of("invalid_config"), None),
            DriverError::Internal { message, .. } => (text_of("internal"), Some(message.clone())),
        };
        DriverErrorResponse { code, user_message: text_of(err.user_message()), detail }
    }

    /// A response with no detail.
    pub fn plain(code: &str, user_message: &str) -> (r: DriverErrorResponse)
        ensures
            response_is(r, code@, user_message@, None),
    {
        DriverErrorResponse { code: text_of(code), user_message: text_of(user_message), detail: None }
    }
}

} // verus!
