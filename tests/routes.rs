use string_analyser::models::ApiErrorResponse;
use string_analyser::routes::{
    cache_key, check_create_value, get_client_ip, is_throttled, RATE_LIMIT,
};

#[test]
fn cache_key_prefixes_identifier() {
    assert_eq!(cache_key("abc"), "string:abc");
    assert_eq!(cache_key(""), "string:");
}

#[test]
fn throttling_starts_at_limit() {
    assert!(!is_throttled(RATE_LIMIT - 1));
    assert!(is_throttled(RATE_LIMIT));
    assert!(is_throttled(RATE_LIMIT + 1));
}

#[test]
fn client_ip_takes_first_forwarded_entry() {
    assert_eq!(get_client_ip(Some("1.2.3.4, 5.6.7.8")), "1.2.3.4");
    assert_eq!(get_client_ip(Some("9.9.9.9")), "9.9.9.9");
    assert_eq!(get_client_ip(Some("")), "");
    assert_eq!(get_client_ip(None), "unknown");
}

#[test]
fn create_value_checks() {
    assert_eq!(check_create_value(Some("  hi there \n")).unwrap(), "hi there");
    let e = check_create_value(Some(" \t ")).unwrap_err();
    assert_eq!(e.status, 400);
    assert_eq!(e.code, "INVALID_INPUT");
    let e = check_create_value(None).unwrap_err();
    assert_eq!(e.status, 422);
    assert_eq!(e.code, "VALIDATION_ERROR");
}

#[test]
fn error_constructors() {
    let cases = [
        (ApiErrorResponse::invalid_input("m".to_string(), None), "INVALID_INPUT", 400),
        (ApiErrorResponse::not_found("m".to_string(), None), "NOT_FOUND", 404),
        (ApiErrorResponse::conflict("m".to_string(), None), "CONFLICT", 409),
        (ApiErrorResponse::validaton_error("m".to_string(), None), "VALIDATION_ERROR", 422),
        (ApiErrorResponse::throttled("m".to_string(), None), "RATE_LIMIT_EXCEEDED", 429),
        (ApiErrorResponse::internal_error("m".to_string(), None), "INTERNAL_SERVER_ERROR", 500),
    ];
    for (r, code, status) in cases {
        assert_eq!(r.code, code);
        assert_eq!(r.status, status);
        assert_eq!(r.message, "m");
        assert!(r.details.is_none());
    }
    let d = serde_json::Value::Bool(true);
    let r = ApiErrorResponse::not_found("x".to_string(), Some(d.clone()));
    assert_eq!(r.details, Some(d));
}
