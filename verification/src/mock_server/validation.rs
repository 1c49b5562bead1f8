use vstd::prelude::*;

use crate::json::{json_get, json_has, json_parses, json_root, parse_json};
use crate::text::owned;

verus! {

/// Errors of the mock server.
#[derive(Debug)]
pub enum MockServerError {
    /// I/O error.
    Io(std::io::Error),
    /// The request body is not JSON.
    Json(serde_json::Error),
    /// The request body lacks a required field.
    Validation(String),
    /// The server could not start.
    Startup(String),
}

impl MockServerError {
    /// The message that describes this error, where it is the library's
    /// own. `None` for the I/O and JSON errors, whose text comes from their
    /// crates.
    pub fn message(&self) -> (r: Option<String>)
        ensures
            match self {
                MockServerError::Validation(m) => r matches Some(t) && t@ == seq![
                    'v', 'a', 'l', 'i', 'd', 'a', 't', 'i', 'o', 'n', ' ', 'e', 'r', 'r', 'o', 'r',
                    ':', ' ',
                ] + m@,
                MockServerError::Startup(m) => r matches Some(t) && t@ == seq![
                    's', 't', 'a', 'r', 't', 'u', 'p', ' ', 'e', 'r', 'r', 'o', 'r', ':', ' ',
                ] + m@,
                _ => r is None,
            },
    {
        match self {
            MockServerError::Validation(m) => {
                let mut r = owned("validation error: ");
                r.append(m.as_str());
                proof {
                    reveal_strlit("validation error: ");
                }
                Some(r)
            },
            MockServerError::Startup(m) => {
                let mut r = owned("startup error: ");
                r.append(m.as_str());
                proof {
                    reveal_strlit("startup error: ");
                }
                Some(r)
            },
            _ => None,
        }
    }
}

/// The text of the validation message for a missing field.
pub open spec fn missing_field_message(field: Seq<char>) -> Seq<char> {
    seq![
        'm', 'i', 's', 's', 'i', 'n', 'g', ' ', 'r', 'e', 'q', 'u', 'i', 'r', 'e', 'd', ' ', 'f',
        'i', 'e', 'l', 'd', ':', ' ',
    ] + field
}

/// The spelling of `model`.
pub open spec fn model_field() -> Seq<char> {
    seq!['m', 'o', 'd', 'e', 'l']
}

/// The spelling of `messages`.
pub open spec fn messages_field() -> Seq<char> {
    seq!['m', 'e', 's', 's', 'a', 'g', 'e', 's']
}

/// Whether `r` is the outcome of checking a parsed request that has the
/// `model` field when `has_model` and the `messages` field when
/// `has_messages`: `model` is checked first.
pub open spec fn fields_outcome(has_model: bool, has_messages: bool, r: Result<(), MockServerError>) -> bool {
    if !has_model {
        r matches Err(MockServerError::Validation(m)) && m@ == missing_field_message(model_field())
    } else if !has_messages {
        r matches Err(MockServerError::Validation(m)) && m@ == missing_field_message(messages_field())
    } else {
        r is Ok
    }
}

/// Checks the required fields of a parsed request.
pub fn check_required_fields(has_model: bool, has_messages: bool) -> (r: Result<(), MockServerError>)
    ensures
        fields_outcome(has_model, has_messages, r),
{
    proof {
        reveal_strlit("missing required field: model");
        reveal_strlit("missing required field: messages");
    }
    if !has_model {
        let m = owned("missing required field: model");
        assert(m@ =~= missing_field_message(model_field()));
        return Err(MockServerError::Validation(m));
    }
    if !has_messages {
        let m = owned("missing required field: messages");
        assert(m@ =~= missing_field_message(messages_field()));
        return Err(MockServerError::Validation(m));
    }
    Ok(())
}

/// Validates an incoming request body: it must be JSON (else a `Json`
/// error) with the fields `model` and `messages`, checked in that order.
pub fn validate_request(body: &str) -> (r: Result<(), MockServerError>)
    ensures
        (r matches Err(MockServerError::Json(_))) <==> !json_parses(body@),
        json_parses(body@) ==> fields_outcome(
            json_has(body@, seq![model_field()]),
            json_has(body@, seq![messages_field()]),
            r,
        ),
{
    match parse_json(body) {
        Ok(doc) => {
            let root = json_root(&doc);
            proof {
                reveal_strlit("model");
                reveal_strlit("messages");
                assert("model"@ =~= model_field());
                assert("messages"@ =~= messages_field());
                assert(Seq::<Seq<char>>::empty().push("model"@) =~= seq![model_field()]);
                assert(Seq::<Seq<char>>::empty().push("messages"@) =~= seq![messages_field()]);
            }
            let has_model = json_get(&root, "model").is_some();
            let has_messages = json_get(&root, "messages").is_some();
            check_required_fields(has_model, has_messages)
        },
        Err(e) => Err(MockServerError::Json(e)),
    }
}

}
