use tesapi::redaction::{scrub, sensitive_name, truncate};
use tesapi::security::is_sensitive_name;

#[test]
fn scrub_should_remove_known_secret_from_error() {
    assert_eq!(
        scrub("failed token-123", &["token-123".into()]),
        "failed <redacted>"
    );
}

#[test]
fn truncate_should_keep_valid_utf8() {
    assert_eq!(
        truncate("TesAPI-✓", 8),
        ("TesAPI-\n<truncated>".into(), true)
    );
}

#[test]
fn truncate_keeps_short_text_whole() {
    assert_eq!(truncate("abc", 3), ("abc".into(), false));
    assert_eq!(truncate("", 0), ("".into(), false));
}

#[test]
fn scrub_skips_empty_secrets_and_replaces_every_occurrence() {
    assert_eq!(scrub("a-b-a", &["".into(), "a".into()]), "<redacted>-b-<redacted>");
}

#[test]
fn sensitive_names_follow_builtin_and_custom_patterns() {
    assert!(is_sensitive_name("X-Api-Key"));
    assert!(is_sensitive_name("Authorization"));
    assert!(!is_sensitive_name("tokenizer"));
    assert!(sensitive_name("customerPin", &["pin".into()]));
    assert!(!sensitive_name("name", &["pin".into()]));
    assert!(!sensitive_name("name", &["  ".into()]));
}

use tesapi::json::{json_to_string, parse_json_text, Json, JsonNumber};
use tesapi::redaction::{
    activity_summary, limit_output, redact_request, redact_value_with_patterns, safe_response,
};

fn doc(text: &str) -> Json {
    parse_json_text(text).expect("test document is JSON")
}

fn at<'a>(value: &'a Json, path: &[&str]) -> &'a Json {
    let mut current = value;
    for step in path {
        current = match current {
            Json::Array(items) => &items[step.parse::<usize>().unwrap()],
            other => other.get(step).expect("field exists"),
        };
    }
    current
}

fn text(value: &Json) -> &str {
    value.as_str().expect("a string").as_str()
}

#[test]
fn redact_request_should_hide_authorization_header() {
    let safe = redact_request(&doc(r#"{"headers":[{"key":"Authorization","value":"Bearer abc"}]}"#));
    assert_eq!(text(at(&safe, &["headers", "0", "value"])), "<redacted>");
}

#[test]
fn redact_request_should_preserve_secret_placeholder() {
    let safe = redact_request(&doc(
        r#"{"headers":[{"key":"Authorization","value":"Bearer {{ token }}"}]}"#,
    ));
    assert_eq!(text(at(&safe, &["headers", "0", "value"])), "Bearer {{ token }}");
}

#[test]
fn custom_pattern_should_redact_matching_keys() {
    let safe = redact_value_with_patterns(
        &doc(r#"{"customerPin":"1234","name":"Ridho"}"#),
        &[],
        &["pin".into()],
    );
    assert_eq!(text(at(&safe, &["customerPin"])), "<redacted>");
    assert_eq!(text(at(&safe, &["name"])), "Ridho");
}

#[test]
fn request_should_redact_sensitive_query_and_param_rows() {
    let safe = redact_request(&doc(
        r#"{"url":"https://example.com/users?token=abc&limit=10","params":[{"key":"api_key","value":"abc"}]}"#,
    ));
    assert!(text(at(&safe, &["url"])).contains("%3Credacted%3E"));
    assert!(text(at(&safe, &["url"])).contains("limit=10"));
    assert_eq!(text(at(&safe, &["params", "0", "value"])), "<redacted>");
    assert!(matches!(at(&safe, &["params", "0", "secret"]), Json::Bool(true)));
}

#[test]
fn activity_should_omit_bodies_by_default() {
    let safe = activity_summary(&doc(r#"{"body":"secret response"}"#), &[], false);
    assert!(matches!(at(&safe, &["body", "omitted"]), Json::Bool(true)));
    assert!(matches!(
        at(&safe, &["body", "sizeBytes"]),
        Json::Number(JsonNumber::PosInt(17))
    ));
}

#[test]
fn activity_keeps_bodies_when_previews_are_stored() {
    let safe = activity_summary(&doc(r#"{"body":"visible"}"#), &[], true);
    assert_eq!(text(at(&safe, &["body"])), "visible");
}

#[test]
fn total_limit_should_report_truncation() {
    let big = format!(r#"{{"value":"{}"}}"#, "x".repeat(1_000));
    let safe = limit_output(&doc(&big), 256);
    assert!(matches!(at(&safe, &["truncated"]), Json::Bool(true)));
    match at(&safe, &["totalBytes"]) {
        Json::Number(JsonNumber::PosInt(n)) => assert!(*n > 256),
        other => panic!("unexpected {other:?}"),
    }
}

#[test]
fn limit_output_keeps_small_documents() {
    let value = doc(r#"{"a":1}"#);
    assert_eq!(json_to_string(&limit_output(&value, 100)), r#"{"a":1}"#);
}

#[test]
fn embedded_json_bodies_and_auth_are_redacted() {
    let safe = redact_request(&doc(
        r#"{"body":{"type":"json","raw":"{\"password\":\"p\",\"n\":1}"},"auth":{"type":"bearer","token":"t0k","value":"{{secret}}"}}"#,
    ));
    assert_eq!(text(at(&safe, &["body", "raw"])), r#"{"n":1,"password":"<redacted>"}"#);
    assert_eq!(text(at(&safe, &["auth", "token"])), "<redacted>");
    assert_eq!(text(at(&safe, &["auth", "value"])), "{{secret}}");
}

#[test]
fn uploaded_file_bytes_are_replaced_by_their_size() {
    let safe = redact_request(&doc(
        r#"{"body":{"type":"form-data","formData":[{"key":"f","files":[{"name":"a.bin","data":[1,2,3]}]}]}}"#,
    ));
    let data = at(&safe, &["body", "formData", "0", "files", "0", "data"]);
    assert!(matches!(at(data, &["omitted"]), Json::Bool(true)));
    assert!(matches!(at(data, &["sizeBytes"]), Json::Number(JsonNumber::PosInt(3))));
}

#[test]
fn safe_response_scrubs_and_truncates_body() {
    let safe = safe_response(
        &doc(r#"{"set-cookie":"a=b","x":"s3cret"}"#),
        "body s3cret tail",
        &["s3cret".into()],
        &[],
        12,
    );
    assert_eq!(text(at(&safe, &["headers", "set-cookie"])), "<redacted>");
    assert_eq!(text(at(&safe, &["headers", "x"])), "<redacted>");
    assert_eq!(text(at(&safe, &["body"])), "body <redact\n<truncated>");
    assert!(matches!(at(&safe, &["truncated"]), Json::Bool(true)));
}
