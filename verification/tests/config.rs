use tesapi::config::{
    codex, configuration_status, json_config, json_entry_current, json_entry_exists, json_patch,
    json_remove, json_snippet, restored_error, spec, validate_unix_metadata, verify_change,
    ClientSpec, EntryState,
};
use tesapi::json::{json_to_string, parse_json_text, Json};

fn doc(text: &str) -> Json {
    parse_json_text(text).unwrap()
}

fn args() -> Vec<String> {
    vec!["--client-id".into(), "x".into()]
}

#[test]
fn patch_should_preserve_unrelated_servers() {
    let patched = json_patch(
        doc(r#"{"mcpServers":{"other":{"command":"other"}},"theme":"dark"}"#),
        "tesapi-mcp",
        &args(),
    )
    .unwrap();
    let servers = patched.get("mcpServers").unwrap();
    assert_eq!(servers.get("other").unwrap().get_str("command").unwrap(), "other");
    assert_eq!(patched.get_str("theme").unwrap(), "dark");
    assert!(json_entry_exists(&patched));
    assert!(json_entry_current(&patched, "tesapi-mcp", "--client-id", "x"));
    assert!(!json_entry_current(&patched, "other-command", "--client-id", "x"));
}

#[test]
fn remove_should_refuse_unmanaged_entry() {
    assert!(json_remove(doc(r#"{"mcpServers":{"tesapi":{"command":"custom"}}}"#)).is_err());
    let managed = json_patch(doc("{}"), "c", &args()).unwrap();
    let removed = json_remove(managed).unwrap();
    assert!(!json_entry_exists(&removed));
}

#[test]
fn patch_refuses_non_object_roots() {
    assert_eq!(
        json_patch(doc("[]"), "c", &args()).unwrap_err(),
        "Client configuration root must be a JSON object"
    );
    assert_eq!(
        json_patch(doc(r#"{"mcpServers":1}"#), "c", &args()).unwrap_err(),
        "mcpServers must be a JSON object"
    );
}

#[test]
fn json_config_reads_missing_and_invalid_files() {
    assert_eq!(json_to_string(&json_config(None).unwrap()), "{}");
    assert!(json_config(Some("{")).unwrap_err().starts_with("Client configuration is invalid JSON: "));
    let snippet = json_snippet("cmd", &args());
    assert!(snippet.contains("\"tesapi\""));
}

#[test]
fn patch_should_preserve_codex_settings() {
    let text = "model = \"gpt-5\"\n[mcp_servers.other]\ncommand = \"other\"\n";
    let patched = codex::patch(text, "tesapi-mcp", &args()).unwrap();
    assert!(patched.contains("model = \"gpt-5\""));
    assert!(patched.contains("[mcp_servers.other]"));
    let entry = codex::read(&patched).unwrap();
    assert!(codex::entry_exists(&entry));
    assert!(codex::entry_current(&entry, "tesapi-mcp", "--client-id", "x"));
    let removed = codex::remove(&patched).unwrap();
    assert!(!codex::entry_exists(&codex::read(&removed).unwrap()));
}

#[test]
fn codex_refuses_manual_entries_and_invalid_toml() {
    let manual = "[mcp_servers.tesapi]\ncommand = \"custom\"\n";
    assert_eq!(
        codex::remove(manual).unwrap_err(),
        "The TesAPI entry is managed manually and was not removed"
    );
    assert!(codex::read("[[[").unwrap_err().starts_with("Codex configuration is invalid TOML: "));
}

#[test]
fn configuration_status_follows_the_entry() {
    assert_eq!(configuration_status(false, false, EntryState::Missing, false), "managed_manually");
    assert_eq!(configuration_status(true, false, EntryState::Missing, false), "not_configured");
    assert_eq!(configuration_status(true, true, EntryState::Invalid, true), "invalid");
    assert_eq!(configuration_status(true, true, EntryState::Present { current: true }, true), "configured");
    assert_eq!(configuration_status(true, true, EntryState::Present { current: false }, true), "outdated");
    assert_eq!(configuration_status(true, true, EntryState::Present { current: true }, false), "managed_manually");
}

#[test]
fn specs_and_checks() {
    let all = vec![
        ClientSpec { kind: "codex".into(), display: "Codex".into(), path: None, executables: vec![] },
        ClientSpec { kind: "cursor".into(), display: "Cursor".into(), path: None, executables: vec![] },
    ];
    assert_eq!(spec("cursor", all).unwrap().display, "Cursor");
    let all = vec![ClientSpec { kind: "codex".into(), display: "Codex".into(), path: None, executables: vec![] }];
    assert_eq!(spec("other", all).unwrap_err(), "Unsupported MCP client");
    assert!(validate_unix_metadata(0o644, 5, 5).is_ok());
    assert!(validate_unix_metadata(0o666, 5, 5).is_err());
    assert!(validate_unix_metadata(0o644, 4, 5).is_err());
    assert!(verify_change(true, true).is_ok());
    assert!(verify_change(false, true).is_err());
    assert_eq!(restored_error("boom"), "boom. The previous configuration was restored.");
}
