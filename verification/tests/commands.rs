use tesapi::commands::activity_view::{activity_csv, csv_cell, redact_activity};
use tesapi::commands::{check_decision, still_pending};
use tesapi::json::{parse_json_text, Json};
use tesapi::types::{McpActivity, McpSafetySettings};

fn record() -> McpActivity {
    McpActivity {
        id: "1".into(),
        session_id: "s".into(),
        client_id: "c".into(),
        client_name: "Cli\"ent".into(),
        tool_name: "t".into(),
        workspace_id: None,
        collection_id: Some("col".into()),
        request_id: None,
        draft_id: None,
        status: "completed".into(),
        policy_reasons: vec![],
        input_summary: parse_json_text(r#"{"body":"x","token":"t"}"#).unwrap(),
        output_summary: Json::Null,
        error_code: None,
        error_detail: Some("e".repeat(9000)),
        approval_id: None,
        approval_decision: None,
        approval_requested_at: None,
        approval_decided_at: None,
        started_at: -5,
        completed_at: None,
        duration_ms: Some(12),
    }
}

#[test]
fn csv_quotes_every_cell() {
    assert_eq!(csv_cell("a\"b").into_iter().collect::<String>(), "\"a\"\"b\"");
    let csv = activity_csv(&[record()]);
    let mut lines = csv.lines();
    assert_eq!(
        lines.next().unwrap(),
        "time,client,session,tool,workspace,collection,request,duration_ms,status,approval,error_code,error_detail"
    );
    assert!(lines.next().unwrap().starts_with("\"-5\",\"Cli\"\"ent\",\"s\",\"t\",\"\",\"col\",\"\",\"12\",\"completed\""));
}

#[test]
fn activity_is_redacted_for_display() {
    let settings = McpSafetySettings {
        store_body_previews: false,
        sensitive_key_patterns: vec![],
        trusted_destinations: vec![],
        activity_retention_days: 30,
        activity_max_rows: 100,
    };
    let out = redact_activity(vec![record()], &settings);
    assert_eq!(out.len(), 1);
    let input = &out[0].input_summary;
    assert!(matches!(input.get("body").unwrap().get("omitted"), Some(Json::Bool(true))));
    assert_eq!(input.get_str("token").unwrap(), "<redacted>");
    assert!(out[0].error_detail.as_ref().unwrap().ends_with("\n<truncated>"));
}

#[test]
fn decisions_are_checked() {
    let once = parse_json_text(r#"{"allowSession":false}"#).unwrap();
    let session = parse_json_text(r#"{"allowSession":true}"#).unwrap();
    assert_eq!(check_decision("allow_session", &once).unwrap_err(), "This action can only be approved once");
    assert!(check_decision("allow_session", &session).is_ok());
    assert!(check_decision("deny", &once).is_ok());
    assert_eq!(check_decision("later", &once).unwrap_err(), "Invalid approval decision");
    assert!(!still_pending(&vec![], &Some("w".into())));
}
