use tesapi::json::{json_to_string, parse_json_text, Json};
use tesapi::tools::execute::{execute_summary, execution_output, history_entry};
use tesapi::tools::read::{documentation_page, environment_entry, sort_environments, sort_search_results, workspace_entry};
use tesapi::types::Capability;
use tesapi::url::parse_url;

fn doc(text: &str) -> Json {
    parse_json_text(text).expect("test document is JSON")
}

fn show(value: &Json) -> String {
    json_to_string(value)
}

fn names(values: &[Json], key: &str) -> Vec<String> {
    values.iter().map(|v| v.get_str(key).cloned().unwrap_or_default()).collect()
}

#[test]
fn workspace_entry_lists_capability_and_identity() {
    let entry = workspace_entry("w1", "Main", "git", Capability::Draft);
    assert_eq!(show(&entry), r#"{"capability":"draft","id":"w1","name":"Main","syncType":"git"}"#);
}

#[test]
fn search_results_are_ordered_case_insensitively_by_collection_path_name_and_id() {
    let results = vec![
        doc(r#"{"collectionId":"c2","path":"a","name":"x","requestId":"r1"}"#),
        doc(r#"{"collectionId":"C1","path":"b","name":"y","requestId":"r2"}"#),
        doc(r#"{"collectionId":"c1","path":"A","name":"z","requestId":"r3"}"#),
        doc(r#"{"collectionId":"c1","path":"a","name":"Z","requestId":"r4"}"#),
    ];
    let sorted = sort_search_results(results);
    assert_eq!(names(&sorted, "requestId"), vec!["r3", "r4", "r2", "r1"]);
}

#[test]
fn search_results_with_equal_keys_keep_their_order() {
    let results = vec![
        doc(r#"{"collectionId":"c","path":"p","name":"n","requestId":"r","tag":"first"}"#),
        doc(r#"{"collectionId":"C","path":"P","name":"N","requestId":"R","tag":"second"}"#),
    ];
    let sorted = sort_search_results(results);
    assert_eq!(names(&sorted, "tag"), vec!["first", "second"]);
}

#[test]
fn environments_are_ordered_by_name_and_carry_their_classification() {
    let entries = vec![
        environment_entry(&Some("production".into()), doc(r#"{"id":"e1","name":"prod"}"#)),
        environment_entry(&None, doc(r#"{"id":"e2","name":"Dev"}"#)),
        environment_entry(&None, doc(r#"{"id":"e3"}"#)),
    ];
    let sorted = sort_environments(entries);
    let ids: Vec<String> =
        sorted.iter().map(|e| e.get("environment").and_then(|m| m.get_str("id")).cloned().unwrap_or_default()).collect();
    assert_eq!(ids, vec!["e3", "e2", "e1"]);
    assert_eq!(show(&sorted[2]), r#"{"classification":"production","environment":{"id":"e1","name":"prod"}}"#);
    assert_eq!(show(&sorted[1]), r#"{"classification":null,"environment":{"id":"e2","name":"Dev"}}"#);
}

#[test]
fn documentation_moves_requests_into_a_page() {
    let documentation = doc(r#"{"id":"c1","name":"API","requests":[{"id":"a"},{"id":"b"},{"id":"c"}]}"#);
    let paged = documentation_page(documentation, &doc(r#"{"offset":1,"limit":1}"#));
    assert_eq!(
        show(&paged),
        r#"{"id":"c1","name":"API","requestPage":{"hasMore":true,"items":[{"id":"b"}],"limit":1,"offset":1,"total":3}}"#
    );
}

#[test]
fn documentation_without_requests_gets_an_empty_page() {
    let paged = documentation_page(doc(r#"{"id":"c1"}"#), &doc("{}"));
    assert_eq!(show(&paged), r#"{"id":"c1","requestPage":{"hasMore":false,"items":[],"limit":50,"offset":0,"total":0}}"#);
    assert_eq!(show(&documentation_page(doc("[1]"), &doc("{}"))), "[1]");
}

#[test]
fn execute_summary_describes_the_call_and_redacts_the_request() {
    let url = parse_url("https://API.example.com/v1?x=1").expect("valid URL");
    let request = doc(r#"{"method":"POST","url":"https://api.example.com/v1","headers":[{"key":"Authorization","value":"Bearer abc"}]}"#);
    let summary = execute_summary(
        "w",
        &Some("c".into()),
        &None,
        "POST",
        &url,
        "e",
        &Some("production".into()),
        &vec!["PRODUCTION_ENVIRONMENT".into(), "UNSAFE_METHOD".into()],
        &request,
        &[],
    );
    assert_eq!(summary.get_str("action").map(String::as_str), Some("execute"));
    assert_eq!(summary.get_bool("allowSession"), Some(false));
    assert_eq!(summary.get_str("url").map(String::as_str), Some("https://api.example.com/v1?x=1"));
    assert!(matches!(summary.get("requestId"), Some(Json::Null)));
    assert_eq!(show(summary.get("risks").expect("risks")), r#"["PRODUCTION_ENVIRONMENT","UNSAFE_METHOD"]"#);
    let text = show(summary.get("request").expect("request"));
    assert!(!text.contains("Bearer abc"), "{text}");
    let staging = execute_summary("w", &None, &None, "GET", &url, "e", &None, &vec!["PRIVATE_NETWORK".into()], &request, &[]);
    assert_eq!(staging.get_bool("allowSession"), Some(true));
}

#[test]
fn execution_output_scrubs_secrets_and_cuts_long_bodies() {
    let headers = doc(r#"{"set-cookie":"session=1","content-type":"text/plain"}"#);
    let output = execution_output(200, "OK", 12, 30, &headers, "token s3cr3t here", &["s3cr3t".into()], &[]);
    assert_eq!(output.get_str("statusText").map(String::as_str), Some("OK"));
    assert_eq!(show(output.get("status").expect("status")), "200");
    assert_eq!(show(output.get("durationMs").expect("duration")), "12");
    assert_eq!(show(output.get("sizeBytes").expect("size")), "30");
    assert_eq!(output.get_bool("truncated"), Some(false));
    let body = output.get_str("body").expect("body");
    assert!(!body.contains("s3cr3t"), "{body}");
    let long = "a".repeat(70_000);
    let cut = execution_output(200, "OK", 1, 70_000, &doc("{}"), &long, &[], &[]);
    assert_eq!(cut.get_bool("truncated"), Some(true));
    assert_eq!(cut.get_str("body").expect("body"), &format!("{}\n<truncated>", "a".repeat(65_536)));
}

#[test]
fn history_entry_records_the_source_request() {
    let request = doc(r#"{"method":"GET","url":"https://example.com"}"#);
    let entry = history_entry("history_1", "2024-01-01T00:00:00+00:00", &request, 404, 7, 9);
    assert_eq!(
        show(&entry),
        r#"{"durationMs":7,"id":"history_1","method":"GET","request":{"method":"GET","url":"https://example.com"},"sizeBytes":9,"status":404,"ts":"2024-01-01T00:00:00+00:00","url":"https://example.com"}"#
    );
    let bare = history_entry("h", "t", &doc("{}"), 200, 0, 0);
    assert!(matches!(bare.get("method"), Some(Json::Null)));
    assert!(matches!(bare.get("url"), Some(Json::Null)));
}
