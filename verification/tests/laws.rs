use tesapi::json::{parse_json_text, Json};
use tesapi::redaction::{scrub, truncate};
use tesapi::json::JsonNumber;
use tesapi::security::{canonical, fingerprint};
use tesapi::settings::normalize_list;
use tesapi::tools::{access_denied, denial_reasons_of};
use tesapi::workspace::tree::{count_nodes, inserted_nodes};

fn nodes(text: &str) -> Vec<Json> {
    match parse_json_text(text) {
        Some(Json::Array(items)) => items,
        _ => panic!("not an array"),
    }
}

#[test]
fn normalizing_a_normalized_list_changes_nothing() {
    let once = normalize_list(&[" Token ".into(), "secret".into(), "TOKEN".into(), "  ".into()]);
    assert_eq!(once, vec!["secret".to_string(), "token".to_string()]);
    assert_eq!(normalize_list(&once), once);
}

#[test]
fn inserting_a_node_adds_its_counts() {
    let tree = nodes(r#"[{"id":"f","type":"folder","children":[{"id":"r","type":"request"}]},{"id":"x","type":"request"}]"#);
    let before = count_nodes(&tree);
    let folder = parse_json_text(r#"{"id":"g","type":"folder","children":[{"id":"q"}]}"#).unwrap();
    let after = count_nodes(&inserted_nodes(&tree, "f", &folder).unwrap());
    let added = count_nodes(&vec![folder]);
    assert_eq!(after, (before.0 + added.0, before.1 + added.1));
    assert_eq!(after, (3, 2));
}

#[test]
fn denial_messages_give_back_their_reasons() {
    let reasons: Vec<String> = vec!["MCP_DISABLED".into(), "READ_ONLY_MODE".into(), "CAPABILITY_DENIED".into()];
    let error = access_denied(&reasons);
    assert_eq!(error.message, "MCP_DISABLED, READ_ONLY_MODE, CAPABILITY_DENIED");
    assert_eq!(denial_reasons_of(&error.message), reasons);
}

#[test]
fn truncation_keeps_a_prefix_within_the_limit() {
    let (text, cut) = truncate("αβγδε", 5);
    assert!(cut);
    assert_eq!(text, "αβ\n<truncated>");
    let kept = text.trim_end_matches("\n<truncated>");
    assert!(kept.len() <= 5);
    assert_eq!(truncate("short", 5), ("short".to_string(), false));
}

#[test]
fn scrubbing_hides_every_known_secret() {
    let secrets = vec!["k3y".to_string(), "pw".to_string(), String::new()];
    let text = "k3yk3y pw=pwpw, k3pw3y";
    let safe = scrub(text, &secrets);
    assert!(!safe.contains("k3y"), "{safe}");
    assert!(!safe.contains("pw"), "{safe}");
    assert_eq!(safe, "<redacted><redacted> <redacted>=<redacted><redacted>, k3<redacted>3y");
}

#[test]
fn a_secret_inside_the_marker_reappears() {
    assert_eq!(scrub("act", &["act".to_string()]), "<redacted>");
}

#[test]
fn canonical_orders_keys_at_every_depth() {
    let value = parse_json_text(r#"{"b":{"d":1,"c":2},"a":[{"z":0,"y":{"q":1,"p":2}}]}"#).expect("JSON");
    let Json::Object(entries) = canonical(&value) else { panic!("not an object") };
    let keys: Vec<&str> = entries.iter().map(|(k, _)| k.as_str()).collect();
    assert_eq!(keys, vec!["a", "b"]);
    let Json::Object(inner) = &entries[1].1 else { panic!("not an object") };
    assert_eq!(inner.iter().map(|(k, _)| k.as_str()).collect::<Vec<_>>(), vec!["c", "d"]);
    let Json::Array(items) = &entries[0].1 else { panic!("not an array") };
    let Json::Object(item) = &items[0] else { panic!("not an object") };
    assert_eq!(item.iter().map(|(k, _)| k.as_str()).collect::<Vec<_>>(), vec!["y", "z"]);
    let Json::Object(deep) = &item[0].1 else { panic!("not an object") };
    assert_eq!(deep.iter().map(|(k, _)| k.as_str()).collect::<Vec<_>>(), vec!["p", "q"]);
}

#[test]
fn scrubbing_twice_is_scrubbing_once() {
    let secrets = vec!["k3y".to_string(), "pw".to_string()];
    let once = scrub("pwk3y and k3ypw", &secrets);
    assert_eq!(scrub(&once, &secrets), once);
    let marker_part = vec!["act".to_string()];
    let first = scrub("act", &marker_part);
    assert_eq!(scrub(&first, &marker_part), "<red<redacted>ed>");
}

fn number(n: u64) -> Json {
    Json::Number(JsonNumber::PosInt(n))
}

#[test]
fn fingerprint_ignores_the_order_of_entries() {
    let one = Json::Object(vec![("a".into(), number(1)), ("b".into(), Json::Str("x".into())), ("c".into(), Json::Null)]);
    let other = Json::Object(vec![("c".into(), Json::Null), ("a".into(), number(1)), ("b".into(), Json::Str("x".into()))]);
    assert_eq!(fingerprint(&one), fingerprint(&other));
    let changed = Json::Object(vec![("c".into(), Json::Null), ("a".into(), number(2)), ("b".into(), Json::Str("x".into()))]);
    assert_ne!(fingerprint(&one), fingerprint(&changed));
}

#[test]
fn repeated_keys_keep_their_order_in_the_fingerprint() {
    let first = Json::Object(vec![("a".into(), number(1)), ("a".into(), number(2))]);
    let second = Json::Object(vec![("a".into(), number(2)), ("a".into(), number(1))]);
    assert_ne!(fingerprint(&first), fingerprint(&second));
}
