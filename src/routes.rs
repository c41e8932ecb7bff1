//! The decisions that the HTTP handlers of the string store make, apart from
//! the I/O around them.

use vstd::prelude::*;

use crate::models::ApiErrorResponse;
use crate::nlp::ParseError;
use crate::text::{char_vec, trim, trim_spec};

verus! {

/// Requests one client may make in one window before it is turned away.
pub const RATE_LIMIT: i32 = 20;

/// Length of a rate-limit window, in seconds.
pub const RATE_LIMIT_WINDOW_SECS: i64 = 60;

/// How long a cached record lives, in seconds.
pub const CACHE_TTL_SECS: u64 = 3600;

/// The cache keys of stored filter results, as a match pattern.
pub const QUERY_CACHE_PATTERN: &'static str = "query:*";

/// The cache key of the stored record with identifier `id`.
pub fn cache_key(id: &str) -> (r: String)
    ensures
        r@ == "string:"@ + id@,
{
    let mut k = String::from_str("string:");
    k.append(id);
    k
}

/// Whether a client that has made `count` requests in the current window is
/// turned away.
pub fn is_throttled(count: i32) -> (r: bool)
    ensures
        r == (count >= RATE_LIMIT),
{
    count >= RATE_LIMIT
}

/// The characters of `s` before its first comma; all of `s` when it has
/// none.
pub open spec fn first_field(s: Seq<char>) -> Seq<char>
    decreases s.len(),
{
    if s.len() == 0 {
        s
    } else if s[0] == ',' {
        seq![]
    } else {
        seq![s[0]] + first_field(s.drop_first())
    }
}

/// The client address that a proxy reported in its forwarding header: the
/// header's first comma-separated entry, or "unknown" without a header.
pub fn get_client_ip(forwarded_for: Option<&str>) -> (r: String)
    ensures
        forwarded_for matches Some(h) ==> r@ == first_field(h@),
        forwarded_for is None ==> r@ == "unknown"@,
{
    match forwarded_for {
        None => String::from_str("unknown"),
        Some(h) => {
            let v = char_vec(h);
            let mut k: usize = 0;
            assert(h@.skip(0) == h@);
            while k < v.len() && v[k] != ','
                invariant
                    v@ == h@,
                    k <= v@.len(),
                    first_field(h@) == h@.take(k as int) + first_field(h@.skip(k as int)),
                decreases v.len() - k,
            {
                assert(h@.skip(k as int).drop_first() == h@.skip(k + 1));
                assert(h@.take(k + 1) == h@.take(k as int) + seq![h@[k as int]]);
                k = k + 1;
            }
            assert(h@.take(k as int) + seq![] == h@.take(k as int));
            String::from_str(h.substring_char(0, k))
        },
    }
}

/// Checks the value of a request to store a string: it must be a string
/// (`None` stands for a missing value or one of another type) that is not
/// blank.  Gives the value without its surrounding whitespace.
pub fn check_create_value(value: Option<&str>) -> (r: Result<String, ApiErrorResponse>)
    ensures
        value is None ==> (r matches Err(e) && e.status == 422 && e.code@ == "VALIDATION_ERROR"@),
        value matches Some(v) ==> (trim_spec(v@).len() == 0 <==> r is Err),
        value matches Some(v) ==> (r matches Ok(s) ==> s@ == trim_spec(v@)),
        value matches Some(v) ==> (r matches Err(e) ==> e.status == 400 && e.code@
            == "INVALID_INPUT"@),
{
    match value {
        None => Err(
            ApiErrorResponse::validaton_error(
                String::from_str("Invalid data type for \"value\"(must be string)"),
                None,
            ),
        ),
        Some(v) => {
            let t = trim(v);
            if t.unicode_len() == 0 {
                Err(
                    ApiErrorResponse::invalid_input(
                        String::from_str("Invalid request body of missing \"value\" field"),
                        None,
                    ),
                )
            } else {
                Ok(String::from_str(t))
            }
        },
    }
}

impl ParseError {
    /// The error record that reports this error to a client.
    pub fn to_response(&self) -> (r: ApiErrorResponse)
        ensures
            *self == ParseError::NoConstraintsRecognized ==> r.status == 400 && r.code@
                == "INVALID_INPUT"@ && r.message@ == "Unable to parse natural language query"@,
            *self == ParseError::ConflictingFilters ==> r.status == 409 && r.code@ == "CONFLICT"@
                && r.message@ == "Query parsed but resulted in conflicting filters"@,
            r.details is None,
    {
        match self {
            ParseError::NoConstraintsRecognized => ApiErrorResponse::invalid_input(
                String::from_str("Unable to parse natural language query"),
                None,
            ),
            ParseError::ConflictingFilters => ApiErrorResponse::conflict(
                String::from_str("Query parsed but resulted in conflicting filters"),
                None,
            ),
        }
    }
}

} // verus!
