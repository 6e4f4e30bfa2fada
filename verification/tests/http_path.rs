use tesapi::http_path::{encode_segment, substitute_path_variables, KeyValue};

fn row(key: &str, value: &str, enabled: bool) -> KeyValue {
    KeyValue {
        key: key.into(),
        value: value.into(),
        enabled,
        value_type: None,
        files: None,
    }
}

#[test]
fn substitutes_and_encodes_path_variables() {
    let rows = vec![KeyValue {
        key: "id".into(),
        value: "Ada Lovelace/42".into(),
        enabled: true,
        value_type: None,
        files: None,
    }];
    assert_eq!(
        substitute_path_variables("https://example.com/users/:id?next=/:id", &rows),
        "https://example.com/users/Ada%20Lovelace%2F42?next=/:id"
    );
}

#[test]
fn encode_segment_keeps_unreserved_and_escapes_utf8_bytes() {
    assert_eq!(encode_segment("a-b.c_d~e"), "a-b.c_d~e");
    assert_eq!(encode_segment("✓ /"), "%E2%9C%93%20%2F");
    assert_eq!(encode_segment(""), "");
}

#[test]
fn disabled_or_unknown_variables_stay_in_place() {
    let rows = vec![row("id", "7", false), row("other", "x", true)];
    assert_eq!(
        substitute_path_variables("https://h/items/:id/:other", &rows),
        "https://h/items/:id/x"
    );
}

#[test]
fn first_enabled_row_wins_and_fragment_is_kept() {
    let rows = vec![row("id", "1", false), row("id", "2", true), row("id", "3", true)];
    assert_eq!(
        substitute_path_variables("/a/:id#/:id", &rows),
        "/a/2#/:id"
    );
}

#[test]
fn variable_must_fill_the_whole_segment() {
    let rows = vec![row("id", "9", true), row("1d", "x", true)];
    assert_eq!(substitute_path_variables("/a/:id.json", &rows), "/a/:id.json");
    assert_eq!(substitute_path_variables("/a/:1d", &rows), "/a/:1d");
    assert_eq!(substitute_path_variables("/a/:id/b", &rows), "/a/9/b");
}
