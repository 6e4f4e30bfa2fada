use tesapi::json::{json_to_string, parse_json_text, Json};
use tesapi::tools::approval::{approval_step, ApprovalStep};
use tesapi::tools::drafts::{
    default_request, draft_output, new_draft_request, update_failure, updated_draft_request, validate_request,
};
use tesapi::tools::execute::{
    allows_session, binding, check_fingerprint, check_resolved, check_risks, check_scheme, check_still_resolved,
    request_method, request_url,
};
use tesapi::tools::save::{check_revision, save_binding, save_name, saved, update_target};
use tesapi::tools::structure::{
    auto_commit_key, check_collection_exists, collection_binding, collection_created, folder_binding, required_name,
    should_auto_commit,
};
use tesapi::tools::{authorization, denial_reasons_of, failure_message, finish_output, tool_group, ToolGroup};
use tesapi::types::{McpApproval, McpDraft};
use tesapi::url::parse_url;

fn doc(text: &str) -> Json {
    parse_json_text(text).expect("test document is JSON")
}

fn show(value: &Json) -> String {
    json_to_string(value)
}

fn draft(request: Json) -> McpDraft {
    McpDraft {
        id: "d1".into(),
        workspace_id: "w".into(),
        origin_collection_id: Some("c".into()),
        origin_request_id: Some("r".into()),
        created_by_client_id: "client".into(),
        created_by_session_id: "s".into(),
        revision: 3,
        request,
        created_at: 1,
        updated_at: 2,
        expires_at: 9,
    }
}

fn approval(decision: &str, expires_at: i64) -> McpApproval {
    McpApproval {
        id: "a".into(),
        activity_id: "act".into(),
        workspace_id: None,
        client_name: "Test".into(),
        tool_name: "tesapi_execute_request".into(),
        request_fingerprint: "f".into(),
        risk_reasons: vec![],
        summary: Json::Null,
        decision: decision.into(),
        requested_at: 0,
        decided_at: None,
        expires_at,
    }
}

#[test]
fn validate_request_reports_the_first_missing_field() {
    assert!(validate_request(&doc(r#"{"method":"GET","url":"","params":[],"headers":[],"body":{},"auth":{}}"#)).is_ok());
    let e = validate_request(&doc(r#"{"method":"GET","url":""}"#)).unwrap_err();
    assert_eq!(e.code, "INVALID_INPUT");
    assert_eq!(e.message, "request.params is required");
    assert_eq!(e.status, "failed");
    assert_eq!(validate_request(&doc("[]")).unwrap_err().message, "request must be an object");
}

#[test]
fn new_drafts_start_from_the_default_request() {
    let request = new_draft_request(&doc(r#"{"workspaceId":"w"}"#), None).unwrap();
    assert_eq!(request.get_str("method").map(|s| s.as_str()), Some("GET"));
    assert_eq!(request.get_str("name").map(|s| s.as_str()), Some("Untitled request"));
    assert!(validate_request(&request).is_ok());
    assert!(show(&default_request()).contains("\"auth\":{\"type\":\"none\"}"));
    let e = new_draft_request(&doc(r#"{"request":5}"#), None).unwrap_err();
    assert_eq!(e.message, "request must be an object");
    let saved_doc = doc(r#"{"name":"x"}"#);
    assert_eq!(new_draft_request(&doc("{}"), Some(&saved_doc)).unwrap_err().message, "Saved request is invalid");
}

#[test]
fn draft_updates_accept_only_request_fields() {
    let request = new_draft_request(&doc("{}"), None).unwrap();
    let updated = updated_draft_request(request, &doc(r#"{"patch":"{\"method\":\"POST\"}"}"#)).unwrap();
    assert_eq!(updated.get_str("method").map(|s| s.as_str()), Some("POST"));
    let request = new_draft_request(&doc("{}"), None).unwrap();
    let e = updated_draft_request(request, &doc(r#"{"patch":{"id":"x"}}"#)).unwrap_err();
    assert_eq!(e.message, "Draft field cannot be changed: id");
    let e = updated_draft_request(Json::Null, &doc(r#"{"patch":{"name":"x"}}"#)).unwrap_err();
    assert_eq!(e.message, "Draft request is invalid");
    let e = updated_draft_request(Json::Null, &doc(r#"{}"#)).unwrap_err();
    assert_eq!(e.message, "patch must be an object");
}

#[test]
fn update_failures_keep_stale_revisions_apart() {
    let stale = update_failure("STALE_DRAFT: revision 2 is not 3");
    assert_eq!(stale.code, "STALE_DRAFT");
    assert_eq!(stale.message, "STALE_DRAFT: revision 2 is not 3");
    assert_eq!(update_failure("disk full").code, "INTERNAL_ERROR");
}

#[test]
fn draft_output_redacts_the_request() {
    let d = draft(doc(r#"{"headers":[{"key":"Authorization","value":"Bearer abc"}]}"#));
    let out = show(&draft_output(&d));
    assert!(out.contains("\"revision\":3"));
    assert!(out.contains("\"originCollectionId\":\"c\""));
    assert!(!out.contains("Bearer abc"));
}

#[test]
fn approval_steps_follow_the_decision() {
    assert!(matches!(approval_step(Some(&approval("allow_once", 10)), 5), ApprovalStep::Granted));
    assert!(matches!(approval_step(Some(&approval("allow_session", 10)), 50), ApprovalStep::Granted));
    match approval_step(Some(&approval("deny", 10)), 5) {
        ApprovalStep::Fail(e) => {
            assert_eq!(e.code, "APPROVAL_DENIED");
            assert_eq!(e.status, "denied");
        }
        other => panic!("unexpected step {:?}", other),
    }
    match approval_step(Some(&approval("expired", 10)), 5) {
        ApprovalStep::Fail(e) => assert_eq!(e.code, "APPROVAL_TIMEOUT"),
        other => panic!("unexpected step {:?}", other),
    }
    assert!(matches!(approval_step(Some(&approval("pending", 10)), 10), ApprovalStep::Expire));
    assert!(matches!(approval_step(Some(&approval("pending", 10)), 9), ApprovalStep::Wait));
    match approval_step(None, 0) {
        ApprovalStep::Fail(e) => assert_eq!(e.code, "APPROVAL_CANCELLED"),
        other => panic!("unexpected step {:?}", other),
    }
}

#[test]
fn execution_checks() {
    assert!(check_resolved(&vec![]).is_ok());
    let e = check_resolved(&vec!["a".into(), "b".into()]).unwrap_err();
    assert_eq!(e.message, "Unresolved variables: a, b");
    assert_eq!(check_still_resolved(&vec!["a".into()]).unwrap_err().message, "Variables changed after approval.");
    assert_eq!(request_url(&doc("{}")).unwrap_err().message, "Request URL is required");
    assert!(request_url(&doc(r#"{"url":"not a url"}"#)).unwrap_err().message.starts_with("Invalid URL: "));
    let url = request_url(&doc(r#"{"url":"ftp://example.com/x"}"#)).unwrap();
    assert_eq!(check_scheme(&url).unwrap_err().code, "DESTINATION_BLOCKED");
    assert!(check_scheme(&parse_url("https://example.com").unwrap()).is_ok());
    assert_eq!(request_method(&doc("{}")), "GET");
    assert_eq!(request_method(&doc(r#"{"method":"PUT"}"#)), "PUT");
    assert!(allows_session(&vec!["UNSAFE_METHOD".into()]));
    assert!(!allows_session(&vec!["PRODUCTION_ENVIRONMENT".into()]));
    assert_eq!(check_fingerprint("a", "b").unwrap_err().code, "APPROVAL_STALE");
    assert!(check_fingerprint("a", "a").is_ok());
    assert!(check_risks(&vec!["X".into()], &vec!["X".into()]).is_ok());
    assert_eq!(
        check_risks(&vec!["X".into()], &vec![]).unwrap_err().message,
        "Destination risk changed after approval."
    );
    assert_eq!(
        show(&binding(&doc("{}"), "env", &doc("[]"))),
        r#"{"environmentId":"env","resolved":[],"source":{}}"#
    );
}

#[test]
fn saving_names_and_targets() {
    let d = draft(doc(r#"{"name":"From draft"}"#));
    assert_eq!(save_name(&doc(r#"{"name":"Given"}"#), &d.request), "Given");
    assert_eq!(save_name(&doc("{}"), &d.request), "From draft");
    assert_eq!(save_name(&doc("{}"), &doc("{}")), "Untitled request");
    assert!(check_revision(3, 3).is_ok());
    assert_eq!(check_revision(3, 2).unwrap_err().message, "Draft revision is stale.");
    assert_eq!(update_target(&d, "c"), Some("r".to_string()));
    assert_eq!(update_target(&d, "other"), None);
    assert!(show(&save_binding(&d, "c", None, "n")).contains("\"folderId\":null"));
    assert_eq!(
        show(&saved("w", "c", "r", &None)),
        r#"{"collectionId":"c","gitWarning":null,"requestId":"r","saved":true,"workspaceId":"w"}"#
    );
}

#[test]
fn structure_names_and_bindings() {
    assert_eq!(required_name(&doc(r#"{"name":"  QC  "}"#)).unwrap(), "QC");
    assert_eq!(required_name(&doc(r#"{"name":"   "}"#)).unwrap_err().message, "name must contain 1 to 200 characters");
    assert_eq!(required_name(&doc("{}")).unwrap_err().message, "name is required");
    let long = format!(r#"{{"name":"{}"}}"#, "é".repeat(101));
    assert!(required_name(&doc(&long)).is_err());
    assert!(check_collection_exists(&vec!["a".into(), "b".into()], "b").is_ok());
    assert_eq!(check_collection_exists(&vec![], "b").unwrap_err().code, "NOT_FOUND");
    assert_eq!(show(&collection_binding("w", "n")), r#"{"name":"n","workspaceId":"w"}"#);
    assert!(show(&folder_binding("w", "c", Some("f"), "n")).contains("\"parentFolderId\":\"f\""));
    assert!(show(&collection_created("w", "c", "n", &Some("warn".into()))).contains("\"gitWarning\":\"warn\""));
    assert_eq!(auto_commit_key("w1"), "workspace:w1:autoCommitOnSave");
    assert!(should_auto_commit(true, "git"));
    assert!(!should_auto_commit(true, "local"));
    assert!(!should_auto_commit(false, "git"));
}

#[test]
fn tools_are_routed_by_name() {
    assert_eq!(tool_group("tesapi_get_request").unwrap(), ToolGroup::Read);
    assert_eq!(tool_group("tesapi_update_request_draft").unwrap(), ToolGroup::Drafts);
    assert_eq!(tool_group("tesapi_create_folder").unwrap(), ToolGroup::Structure);
    assert_eq!(tool_group("tesapi_save_request_draft").unwrap(), ToolGroup::Save);
    assert_eq!(tool_group("tesapi_execute_request").unwrap(), ToolGroup::Execute);
    let e = tool_group("nope").unwrap_err();
    assert_eq!(e.code, "TOOL_NOT_FOUND");
    assert_eq!(e.message, "Unknown TesAPI tool: nope");
}

#[test]
fn refusals_and_failures_are_recorded() {
    assert!(authorization(true, &vec![]).is_ok());
    let e = authorization(false, &vec!["A".into(), "B".into()]).unwrap_err();
    assert_eq!(e.code, "ACCESS_DENIED");
    assert_eq!(e.status, "denied");
    assert_eq!(e.message, "A, B");
    assert_eq!(denial_reasons_of(&e.message), vec!["A".to_string(), "B".to_string()]);
    assert_eq!(denial_reasons_of(" x ,, y,"), vec!["x".to_string(), "y".to_string()]);
    assert!(denial_reasons_of("").is_empty());
    assert_eq!(failure_message("short"), "short");
    assert!(failure_message(&"x".repeat(9000)).len() <= 8192 + 16);
    let out = finish_output(&doc(r#"{"token":"abc","ok":1}"#), &[]);
    assert_eq!(show(&out), r#"{"ok":1,"token":"<redacted>"}"#);
}
