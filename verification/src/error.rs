//! The error taxonomy.
//!
//! Transport and server-handshake failures are fatal to a connection;
//! per-subscription errors are routed to that subscription alone; a
//! command that cannot be delivered surfaces as an operation failure.
//! Errors raised by outside layers arrive here as their message text.

use vstd::prelude::*;
use vstd::string::StringExecFns;
use crate::json::{JsonValue, has_key, first_value, find_field, lemma_first_match_unique};

verus! {

/// Result of an operation against the server.
pub type WinCCResult<T> = Result<T, WinCCError>;

/// What went wrong, with the message text describing it.
#[derive(Debug, PartialEq, Eq)]
pub enum WinCCError {
    /// The HTTP request itself failed.
    HttpError(String),
    /// A JSON document could not be parsed or mapped.
    JsonError(String),
    /// The server answered with GraphQL-level errors.
    GraphQLError(String),
    AuthenticationError(String),
    LoginError(String),
    SessionError(String),
    TagError(String),
    AlarmError(String),
    InvalidParameter(String),
    OperationFailed(String),
}

/// The message text of one GraphQL error object: its `message` field
/// when that is a string, a fixed text otherwise.
pub open spec fn message_of(e: JsonValue) -> Seq<char> {
    match e {
        JsonValue::Obj(pairs) => if has_key(pairs@, "message"@) {
            match first_value(pairs@, "message"@) {
                JsonValue::Str(s) => s@,
                _ => "Unknown error"@,
            }
        } else {
            "Unknown error"@
        },
        _ => "Unknown error"@,
    }
}

/// The error messages joined with a comma and a space, in order.
pub open spec fn joined_messages(errors: Seq<JsonValue>) -> Seq<char>
    decreases errors.len(),
{
    if errors.len() == 0 {
        Seq::<char>::empty()
    } else if errors.len() == 1 {
        message_of(errors[0])
    } else {
        joined_messages(errors.drop_last()) + ", "@ + message_of(errors.last())
    }
}

impl WinCCError {
    /// Folds a server-sent list of GraphQL error objects into one
    /// GraphQL error whose text joins their messages in order.
    pub fn from_graphql_errors(errors: &Vec<JsonValue>) -> (r: WinCCError)
        ensures
            match r {
                WinCCError::GraphQLError(s) => s@ == joined_messages(errors@),
                _ => false,
            },
    {
        let mut acc = String::new();
        let mut i: usize = 0;
        while i < errors.len()
            invariant
                i <= errors@.len(),
                acc@ == joined_messages(errors@.subrange(0, i as int)),
            decreases errors@.len() - i,
        {
            if i > 0 {
                acc.append(", ");
            }
            match &errors[i] {
                JsonValue::Obj(pairs) => {
                    match find_field(pairs, "message") {
                        Some(j) => {
                            proof {
                                lemma_first_match_unique(pairs@, "message"@, j as int);
                            }
                            match &pairs[j].1 {
                                JsonValue::Str(s) => {
                                    let t = s.as_str();
                                    acc.append(t);
                                },
                                _ => {
                                    acc.append("Unknown error");
                                },
                            }
                        },
                        None => {
                            acc.append("Unknown error");
                        },
                    }
                },
                _ => {
                    acc.append("Unknown error");
                },
            }
            i = i + 1;
            proof {
                let s = errors@.subrange(0, i as int);
                assert(s.drop_last() =~= errors@.subrange(0, i - 1));
                assert(s.last() == errors@[i - 1]);
            }
        }
        proof {
            assert(errors@.subrange(0, errors@.len() as int) =~= errors@);
        }
        WinCCError::GraphQLError(acc)
    }

    /// The error's full text: the kind of failure, then the message.
    pub fn describe(&self) -> (r: String)
        ensures
            r@ == error_text(*self),
    {
        match self {
            WinCCError::HttpError(m) => prefixed("HTTP request failed: ", m),
            WinCCError::JsonError(m) => prefixed("JSON parsing error: ", m),
            WinCCError::GraphQLError(m) => prefixed("GraphQL error: ", m),
            WinCCError::AuthenticationError(m) => prefixed("Authentication error: ", m),
            WinCCError::LoginError(m) => prefixed("Login failed: ", m),
            WinCCError::SessionError(m) => prefixed("Session error: ", m),
            WinCCError::TagError(m) => prefixed("Tag operation error: ", m),
            WinCCError::AlarmError(m) => prefixed("Alarm operation error: ", m),
            WinCCError::InvalidParameter(m) => prefixed("Invalid parameter: ", m),
            WinCCError::OperationFailed(m) => prefixed("Operation failed: ", m),
        }
    }
}

/// The full text of an error, as its display form reads.
pub open spec fn error_text(e: WinCCError) -> Seq<char> {
    match e {
        WinCCError::HttpError(m) => "HTTP request failed: "@ + m@,
        WinCCError::JsonError(m) => "JSON parsing error: "@ + m@,
        WinCCError::GraphQLError(m) => "GraphQL error: "@ + m@,
        WinCCError::AuthenticationError(m) => "Authentication error: "@ + m@,
        WinCCError::LoginError(m) => "Login failed: "@ + m@,
        WinCCError::SessionError(m) => "Session error: "@ + m@,
        WinCCError::TagError(m) => "Tag operation error: "@ + m@,
        WinCCError::AlarmError(m) => "Alarm operation error: "@ + m@,
        WinCCError::InvalidParameter(m) => "Invalid parameter: "@ + m@,
        WinCCError::OperationFailed(m) => "Operation failed: "@ + m@,
    }
}

fn prefixed(prefix: &str, m: &String) -> (r: String)
    ensures
        r@ == prefix@ + m@,
{
    let mut s = String::from_str(prefix);
    s.append(m.as_str());
    s
}

/// The server's GraphQL error list, when the response carries a
/// nonempty one.
pub open spec fn spec_graphql_errors(result: JsonValue) -> Option<Seq<JsonValue>> {
    match result {
        JsonValue::Obj(pairs) => if has_key(pairs@, "errors"@) {
            match first_value(pairs@, "errors"@) {
                JsonValue::Arr(a) => if a@.len() > 0 {
                    Some(a@)
                } else {
                    None
                },
                _ => None,
            }
        } else {
            None
        },
        _ => None,
    }
}

/// Splits a GraphQL response: a nonempty `errors` list becomes one
/// GraphQL error joining its messages; otherwise the `data` field is
/// handed back, or an empty object when there is none.
pub fn split_graphql_response(result: JsonValue) -> (r: WinCCResult<JsonValue>)
    ensures
        match r {
            Err(e) => {
                &&& spec_graphql_errors(result) is Some
                &&& match e {
                    WinCCError::GraphQLError(s) => s@ == joined_messages(
                        spec_graphql_errors(result)->Some_0,
                    ),
                    _ => false,
                }
            },
            Ok(d) => {
                &&& spec_graphql_errors(result) is None
                &&& match result {
                    JsonValue::Obj(pairs) => if has_key(pairs@, "data"@) {
                        d == first_value(pairs@, "data"@)
                    } else {
                        match d {
                            JsonValue::Obj(v) => v@.len() == 0,
                            _ => false,
                        }
                    },
                    _ => match d {
                        JsonValue::Obj(v) => v@.len() == 0,
                        _ => false,
                    },
                }
            },
        },
{
    match result {
        JsonValue::Obj(mut pairs) => {
            match find_field(&pairs, "errors") {
                Some(i) => {
                    proof {
                        lemma_first_match_unique(pairs@, "errors"@, i as int);
                    }
                    match &pairs[i].1 {
                        JsonValue::Arr(a) => {
                            if a.len() > 0 {
                                return Err(WinCCError::from_graphql_errors(a));
                            }
                        },
                        _ => {},
                    }
                },
                None => {},
            }
            match find_field(&pairs, "data") {
                Some(j) => {
                    proof {
                        lemma_first_match_unique(pairs@, "data"@, j as int);
                    }
                    Ok(pairs.remove(j).1)
                },
                None => Ok(JsonValue::Obj(Vec::new())),
            }
        },
        _ => Ok(JsonValue::Obj(Vec::new())),
    }
}

} // verus!
