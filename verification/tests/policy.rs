use tesapi::json::Json;
use tesapi::policy::{destination_is_trusted, evaluate, execution_risks, requires_approval, PolicyContext};
use tesapi::settings::{normalize_list, normalize_safety, stored_safety};
use tesapi::types::{AuthenticatedSession, Capability, McpClient, McpPolicy, McpSafetySettings};
use tesapi::url::parse_url;

fn session() -> AuthenticatedSession {
    AuthenticatedSession {
        id: "session".into(),
        client: McpClient {
            id: "client".into(),
            kind: "manual".into(),
            display_name: "Test".into(),
            config_path: None,
            enabled: true,
            capability: Capability::Execute,
            installed_at: None,
            last_seen_at: None,
        },
    }
}

fn policy(id: &str, workspace: Option<&str>, collection: Option<&str>, capability: Capability) -> McpPolicy {
    McpPolicy {
        id: id.into(),
        client_id: None,
        workspace_id: workspace.map(|s| s.to_string()),
        collection_id: collection.map(|s| s.to_string()),
        environment_id: None,
        capability,
        environment_class: None,
        environment_use: None,
        approval_mode: None,
        created_at: 0,
        updated_at: 0,
    }
}

#[test]
fn unsafe_methods_should_require_approval_by_default() {
    let url = parse_url("https://api.example.com/items").unwrap();
    let body = Json::Object(Vec::new());
    let risks = execution_risks("DELETE", &url, Some("staging"), &body, false, false);
    assert!(requires_approval("tesapi_execute_request", "risky", &risks));
}

#[test]
fn safe_get_should_not_require_approval_without_risks() {
    assert!(!requires_approval("tesapi_execute_request", "risky", &[]));
}

#[test]
fn trusted_destination_should_accept_host_or_url() {
    let url = parse_url("http://127.0.0.1:8080/users").unwrap();
    assert!(destination_is_trusted(&url, &["http://127.0.0.1:8080".into()]));
}

#[test]
fn evaluate_should_deny_workspace_without_policy() {
    let decision = evaluate(
        true,
        false,
        &Vec::new(),
        &session(),
        &PolicyContext { workspace_id: Some("workspace"), collection_id: None, environment_id: None, required: Capability::Read },
    );
    assert!(!decision.allowed);
}

#[test]
fn evaluate_should_not_allow_collection_to_exceed_workspace() {
    let policies = vec![
        policy("workspace", Some("w"), None, Capability::Read),
        policy("collection", Some("w"), Some("c"), Capability::Execute),
    ];
    let decision = evaluate(
        true,
        false,
        &policies,
        &session(),
        &PolicyContext { workspace_id: Some("w"), collection_id: Some("c"), environment_id: None, required: Capability::Draft },
    );
    assert_eq!(decision.capability, Capability::Read);
}

#[test]
fn evaluate_should_block_drafts_in_read_only_mode() {
    let policies = vec![policy("workspace", Some("w"), None, Capability::Draft)];
    let decision = evaluate(
        true,
        true,
        &policies,
        &session(),
        &PolicyContext { workspace_id: Some("w"), collection_id: None, environment_id: None, required: Capability::Draft },
    );
    assert!(decision.reasons.contains(&"READ_ONLY_MODE".to_string()));
    assert!(!decision.allowed);
}

#[test]
fn evaluate_allows_a_granted_scope() {
    let policies = vec![policy("workspace", Some("w"), None, Capability::Execute)];
    let decision = evaluate(
        true,
        false,
        &policies,
        &session(),
        &PolicyContext { workspace_id: Some("w"), collection_id: None, environment_id: None, required: Capability::Execute },
    );
    assert!(decision.allowed);
    assert!(decision.reasons.is_empty());
    assert_eq!(decision.capability, Capability::Execute);
    assert_eq!(decision.approval_mode, "risky");
}

#[test]
fn execution_risks_lists_every_risk_in_order() {
    let url = parse_url("http://10.0.0.1/upload").unwrap();
    let row = Json::Object(vec![("valueType".to_string(), Json::Str("file".to_string()))]);
    let body = Json::Object(vec![(
        "body".to_string(),
        Json::Object(vec![("formData".to_string(), Json::Array(vec![row]))]),
    )]);
    let risks = execution_risks("post", &url, Some("Production"), &body, true, false);
    let expected: Vec<String> = vec![
        "PRODUCTION_ENVIRONMENT".into(),
        "UNSAFE_METHOD".into(),
        "PLAIN_HTTP".into(),
        "PRIVATE_DESTINATION".into(),
        "FILE_UPLOAD".into(),
    ];
    assert_eq!(risks, expected);
    let safe = execution_risks("get", &parse_url("https://example.com").unwrap(), None, &Json::Null, true, true);
    assert!(safe.is_empty());
}

#[test]
fn drafts_and_always_mode_require_approval() {
    assert!(requires_approval("tesapi_save_request_draft", "never", &[]));
    assert!(requires_approval("tesapi_execute_request", "always", &[]));
    assert!(!requires_approval("tesapi_execute_request", "never", &[]));
}

#[test]
fn untrusted_destinations_are_refused() {
    let url = parse_url("https://api.example.com/x").unwrap();
    assert!(destination_is_trusted(&url, &["  API.example.com ".into()]));
    assert!(!destination_is_trusted(&url, &["other.example.com".into()]));
    assert!(!destination_is_trusted(&url, &[]));
}

#[test]
fn normalize_list_trims_lowers_sorts_and_dedups() {
    let r = normalize_list(&[" B ".into(), "a".into(), "".into(), "b".into()]);
    assert_eq!(r, vec!["a".to_string(), "b".to_string()]);
}

#[test]
fn safety_settings_are_clamped() {
    let s = normalize_safety(&McpSafetySettings {
        store_body_previews: true,
        sensitive_key_patterns: vec!["Token".into()],
        trusted_destinations: vec![],
        activity_retention_days: 0,
        activity_max_rows: 1_000_000,
    });
    assert_eq!(s.activity_retention_days, 1);
    assert_eq!(s.activity_max_rows, 100_000);
    assert_eq!(s.sensitive_key_patterns, vec!["token".to_string()]);
    let d = stored_safety(None, None, None, None, None);
    assert_eq!(d.activity_retention_days, 30);
    assert_eq!(d.activity_max_rows, 10_000);
    assert!(!d.store_body_previews);
}
