//! Request and response records of the string store.

use vstd::prelude::*;

use crate::analyser::AnalysedString;

verus! {

/// A JSON value, carried through unchanged.
#[verifier::external_type_specification]
#[verifier::external_body]
pub struct ExJsonValue(serde_json::Value);

/// A request to store a string.
#[derive(Debug, Clone, PartialEq)]
pub struct CreateStringRequest {
    pub value: String,
}

/// A request to filter stored strings by free text.
#[derive(Debug, Clone, PartialEq)]
pub struct NlpQuery {
    pub query: String,
}

/// Stored strings that matched a filter given by parameters.
#[derive(Debug)]
pub struct GetStringsResponse {
    pub data: Vec<AnalysedString>,
    pub count: usize,
    /// The filter's set fields.
    pub filters_applied: serde_json::Value,
}

/// Stored strings that matched a filter given as free text.
#[derive(Debug)]
pub struct NlpResponse {
    pub data: Vec<AnalysedString>,
    pub count: usize,
    pub interpreted_query: InterpretedQuery,
}

/// The text of a free-text filter and the fields that were read from it.
#[derive(Debug)]
pub struct InterpretedQuery {
    pub original: String,
    pub parsed_filters: serde_json::Value,
}

/// An error reported to a client: a code, a message, optional details and
/// the HTTP status.
#[derive(Debug)]
pub struct ApiErrorResponse {
    pub code: String,
    pub message: String,
    pub details: Option<serde_json::Value>,
    pub status: i32,
}

impl ApiErrorResponse {
    /// The record with the given code and status.
    pub open spec fn is_error(
        &self,
        code: Seq<char>,
        status: int,
        message: String,
        details: Option<serde_json::Value>,
    ) -> bool {
        &&& self.code@ == code
        &&& self.status == status
        &&& self.message == message
        &&& self.details == details
    }

    /// A malformed request: status 400.
    pub fn invalid_input(message: String, details: Option<serde_json::Value>) -> (r: Self)
        ensures
            r.is_error("INVALID_INPUT"@, 400, message, details),
    {
        ApiErrorResponse { code: String::from_str("INVALID_INPUT"), message, details, status: 400 }
    }

    /// No such record: status 404.
    pub fn not_found(message: String, details: Option<serde_json::Value>) -> (r: Self)
        ensures
            r.is_error("NOT_FOUND"@, 404, message, details),
    {
        ApiErrorResponse { code: String::from_str("NOT_FOUND"), message, details, status: 404 }
    }

    /// The record exists already, or the request contradicts itself:
    /// status 409.
    pub fn conflict(message: String, details: Option<serde_json::Value>) -> (r: Self)
        ensures
            r.is_error("CONFLICT"@, 409, message, details),
    {
        ApiErrorResponse { code: String::from_str("CONFLICT"), message, details, status: 409 }
    }

    /// A field of the wrong type: status 422.
    pub fn validaton_error(message: String, details: Option<serde_json::Value>) -> (r: Self)
        ensures
            r.is_error("VALIDATION_ERROR"@, 422, message, details),
    {
        ApiErrorResponse {
            code: String::from_str("VALIDATION_ERROR"),
            message,
            details,
            status: 422,
        }
    }

    /// Too many requests: status 429.
    pub fn throttled(message: String, details: Option<serde_json::Value>) -> (r: Self)
        ensures
            r.is_error("RATE_LIMIT_EXCEEDED"@, 429, message, details),
    {
        ApiErrorResponse {
            code: String::from_str("RATE_LIMIT_EXCEEDED"),
            message,
            details,
            status: 429,
        }
    }

    /// A failure on the server's side: status 500.
    pub fn internal_error(message: String, details: Option<serde_json::Value>) -> (r: Self)
        ensures
            r.is_error("INTERNAL_SERVER_ERROR"@, 500, message, details),
    {
        ApiErrorResponse {
            code: String::from_str("INTERNAL_SERVER_ERROR"),
            message,
            details,
            status: 500,
        }
    }
}

} // verus!
