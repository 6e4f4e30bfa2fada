use tesapi::json::Json;
use tesapi::store::{
    filter_activity, parse_json, parse_list, pending_for_workspace, retention_cutoff,
    retention_rows, valid_decision,
};
use tesapi::types::{ActivityQuery, McpActivity, McpApproval};

fn activity(id: &str, tool: &str, started_at: i64) -> McpActivity {
    McpActivity {
        id: id.into(),
        session_id: "s".into(),
        client_id: "c".into(),
        client_name: "Client".into(),
        tool_name: tool.into(),
        workspace_id: Some("w".into()),
        collection_id: None,
        request_id: None,
        draft_id: None,
        status: "completed".into(),
        policy_reasons: vec![],
        input_summary: Json::Null,
        output_summary: Json::Null,
        error_code: None,
        error_detail: Some("Boom".into()),
        approval_id: None,
        approval_decision: None,
        approval_requested_at: None,
        approval_decided_at: None,
        started_at,
        completed_at: None,
        duration_ms: None,
    }
}

#[test]
fn activity_filters_and_pages() {
    let records = vec![activity("1", "a", 10), activity("2", "b", 20), activity("3", "a", 30)];
    let mut query = ActivityQuery::default();
    query.tool_name = Some("a".into());
    let found = filter_activity(records, &query);
    assert_eq!(found.iter().map(|r| r.id.as_str()).collect::<Vec<_>>(), ["1", "3"]);
    let records = vec![activity("1", "a", 10), activity("2", "b", 20), activity("3", "a", 30)];
    let mut query = ActivityQuery::default();
    query.search = Some("BOOM".into());
    query.offset = Some(1);
    query.limit = Some(1);
    let found = filter_activity(records, &query);
    assert_eq!(found.iter().map(|r| r.id.as_str()).collect::<Vec<_>>(), ["2"]);
    let records = vec![activity("1", "a", 10), activity("2", "b", 20)];
    let mut query = ActivityQuery::default();
    query.started_after = Some(15);
    assert_eq!(filter_activity(records, &query).len(), 1);
}

#[test]
fn stored_values_are_read_back() {
    assert!(matches!(parse_json("not json"), Json::Null));
    assert_eq!(parse_list(r#"["a","b"]"#), vec!["a".to_string(), "b".to_string()]);
    assert!(parse_list(r#"["a",1]"#).is_empty());
    assert!(parse_list("{").is_empty());
}

#[test]
fn approvals_and_retention() {
    assert!(valid_decision("allow_once").is_ok());
    assert_eq!(valid_decision("maybe").unwrap_err(), "Invalid approval decision");
    assert_eq!(retention_cutoff(100_000_000, 0), 100_000_000 - 86_400_000);
    assert_eq!(retention_rows(5), 100);
    assert_eq!(retention_rows(500), 500);
    let approval = |id: &str, ws: Option<&str>| McpApproval {
        id: id.into(),
        activity_id: "a".into(),
        workspace_id: ws.map(str::to_owned),
        client_name: "c".into(),
        tool_name: "t".into(),
        request_fingerprint: "f".into(),
        risk_reasons: vec![],
        summary: Json::Null,
        decision: "pending".into(),
        requested_at: 0,
        decided_at: None,
        expires_at: 1,
    };
    let kept = pending_for_workspace(vec![approval("1", Some("w")), approval("2", None), approval("3", Some("w"))], Some("w"));
    assert_eq!(kept.iter().map(|a| a.id.as_str()).collect::<Vec<_>>(), ["1", "3"]);
    let all = pending_for_workspace(vec![approval("1", Some("w")), approval("2", None)], None);
    assert_eq!(all.len(), 2);
}
