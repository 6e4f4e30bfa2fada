use tesapi::workspace::environments::{escape_pointer, resolve_text};
use tesapi::workspace::safe_id;

#[test]
fn resolve_text_should_match_shared_variable_grammar() {
    let values = vec![("base_url".to_string(), "https://example.com".to_string())];
    assert_eq!(
        resolve_text("{{ base_url }}/users", &values, &mut Vec::new()),
        "https://example.com/users"
    );
}

#[test]
fn resolve_text_reports_unknown_names_and_keeps_placeholders() {
    let values = vec![("a".to_string(), "1".to_string())];
    let mut unresolved = Vec::new();
    assert_eq!(
        resolve_text("{{a}}-{{ b }}-{{c", &values, &mut unresolved),
        "1-{{ b }}-{{c"
    );
    assert_eq!(unresolved, vec!["b".to_string()]);
}

#[test]
fn resolve_text_later_values_replace_earlier_ones() {
    let values = vec![
        ("k".to_string(), "old".to_string()),
        ("k".to_string(), "new".to_string()),
    ];
    assert_eq!(resolve_text("{{k}}", &values, &mut Vec::new()), "new");
}

#[test]
fn escape_pointer_escapes_tilde_then_slash() {
    assert_eq!(escape_pointer("env/a~b"), "env~1a~0b");
}

#[test]
fn safe_id_refuses_path_like_ids() {
    assert_eq!(safe_id("abc"), Ok("abc"));
    for bad in ["", ".", "..", "a/b", "a\\b"] {
        assert_eq!(safe_id(bad), Err("Invalid workspace entity ID".to_string()));
    }
}
