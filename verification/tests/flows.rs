use tesapi::json::{parse_json_text, Json};
use tesapi::policy::PolicyDecision;
use tesapi::tools::flow::{
    execute_start, execute_step, write_start, write_step, ExecuteAction, ExecuteEvent, ExecuteState, WriteAction, WriteEvent,
};
use tesapi::tools::ToolError;
use tesapi::types::Capability;

fn doc(text: &str) -> Json {
    parse_json_text(text).expect("test document is JSON")
}

fn decision(allowed: bool, mode: &str, class: Option<&str>) -> PolicyDecision {
    PolicyDecision {
        allowed,
        capability: if allowed { Capability::Execute } else { Capability::Deny },
        reasons: if allowed { vec![] } else { vec!["Execute is not allowed".to_string()] },
        approval_mode: mode.to_string(),
        environment_class: class.map(str::to_string),
    }
}

fn start(request: &Json) -> (ExecuteState, ExecuteAction) {
    execute_start("tesapi_execute_request", "env", "w", Some("c".into()), Some("r".into()), request.deep_clone(), vec![], vec![])
}

fn code(action: &ExecuteAction) -> String {
    match action {
        ExecuteAction::Fail(e) => e.code.clone(),
        _ => String::new(),
    }
}

/// Runs an execution up to the approval or the reload, returning the state and action there.
fn to_destination(request: &Json, mode: &str) -> (ExecuteState, ExecuteAction) {
    let (state, action) = start(request);
    assert!(matches!(action, ExecuteAction::Decide));
    let (state, action) = execute_step(state, ExecuteEvent::Decided(decision(true, mode, Some("development"))));
    assert!(matches!(action, ExecuteAction::Resolve));
    let (state, action) = execute_step(state, ExecuteEvent::Resolved { resolved: request.deep_clone(), unresolved: vec![] });
    assert!(matches!(action, ExecuteAction::CheckDestination(_)));
    execute_step(state, ExecuteEvent::Destination { private: false })
}

#[test]
fn a_safe_request_is_sent_after_the_rechecks() {
    let request = doc(r#"{"method":"GET","url":"https://api.example.com/items"}"#);
    let (state, action) = to_destination(&request, "risky");
    assert!(matches!(action, ExecuteAction::Reload));
    let (state, action) = execute_step(
        state,
        ExecuteEvent::Reloaded { source: request.deep_clone(), resolved: request.deep_clone(), unresolved: vec![] },
    );
    assert!(matches!(action, ExecuteAction::Redecide));
    let (state, action) = execute_step(state, ExecuteEvent::Redecided(decision(true, "risky", Some("development"))));
    assert!(matches!(action, ExecuteAction::CheckFreshDestination(_)));
    let (_, action) = execute_step(state, ExecuteEvent::FreshDestination { private: false });
    match action {
        ExecuteAction::Send { method, url, .. } => {
            assert_eq!(method, "GET");
            assert_eq!(url, "https://api.example.com/items");
        }
        _ => panic!("expected a send"),
    }
}

#[test]
fn a_risky_request_waits_for_approval_and_a_denial_ends_it() {
    let request = doc(r#"{"method":"POST","url":"https://api.example.com/items"}"#);
    let (state, action) = to_destination(&request, "risky");
    match &action {
        ExecuteAction::Approve { risks, allow_session, .. } => {
            assert_eq!(risks, &vec!["UNSAFE_METHOD".to_string()]);
            assert!(*allow_session);
        }
        _ => panic!("expected an approval request"),
    }
    let denied = ToolError::new("APPROVAL_DENIED", "The user denied this action.");
    let (_, action) = execute_step(state, ExecuteEvent::Approval(Err(denied)));
    assert_eq!(code(&action), "APPROVAL_DENIED");
}

#[test]
fn a_refused_or_changed_request_is_never_sent() {
    let request = doc(r#"{"method":"GET","url":"https://api.example.com/items"}"#);
    let (state, _) = start(&request);
    let (_, action) = execute_step(state, ExecuteEvent::Decided(decision(false, "risky", None)));
    assert_eq!(code(&action), "ACCESS_DENIED");

    let (state, _) = start(&request);
    let (state, _) = execute_step(state, ExecuteEvent::Decided(decision(true, "risky", None)));
    let (_, action) = execute_step(state, ExecuteEvent::Resolved { resolved: request.deep_clone(), unresolved: vec!["token".into()] });
    assert_eq!(code(&action), "UNRESOLVED_VARIABLE");

    let ftp = doc(r#"{"method":"GET","url":"ftp://example.com/file"}"#);
    let (state, _) = start(&ftp);
    let (state, _) = execute_step(state, ExecuteEvent::Decided(decision(true, "risky", None)));
    let (_, action) = execute_step(state, ExecuteEvent::Resolved { resolved: ftp.deep_clone(), unresolved: vec![] });
    assert_eq!(code(&action), "DESTINATION_BLOCKED");

    let (state, _) = to_destination(&request, "risky");
    let changed = doc(r#"{"method":"GET","url":"https://api.example.com/other"}"#);
    let (_, action) = execute_step(state, ExecuteEvent::Reloaded { source: changed.deep_clone(), resolved: changed, unresolved: vec![] });
    assert_eq!(code(&action), "APPROVAL_STALE");

    let (state, _) = to_destination(&request, "risky");
    let (state, _) = execute_step(
        state,
        ExecuteEvent::Reloaded { source: request.deep_clone(), resolved: request.deep_clone(), unresolved: vec![] },
    );
    let (state, _) = execute_step(state, ExecuteEvent::Redecided(decision(true, "risky", Some("development"))));
    let (_, action) = execute_step(state, ExecuteEvent::FreshDestination { private: true });
    assert_eq!(code(&action), "APPROVAL_STALE");
}

#[test]
fn events_out_of_order_fail() {
    let request = doc(r#"{"method":"GET","url":"https://api.example.com/items"}"#);
    let (state, _) = start(&request);
    let (_, action) = execute_step(state, ExecuteEvent::Destination { private: false });
    assert_eq!(code(&action), "INTERNAL_ERROR");
}

fn write_code(action: &WriteAction) -> String {
    match action {
        WriteAction::Fail(e) => e.code.clone(),
        _ => String::new(),
    }
}

#[test]
fn a_save_is_written_only_after_approval_and_an_unchanged_reload() {
    let binding = doc(r#"{"draftId":"d","revision":1}"#);
    let (state, action) = write_start(&binding, doc("{}"), false, true);
    assert!(matches!(action, WriteAction::Decide));
    let (state, action) = write_step(state, WriteEvent::Decided(decision(true, "risky", None)));
    assert!(matches!(action, WriteAction::Approve { .. }));
    let (state, action) = write_step(state, WriteEvent::Approval(Ok(())));
    assert!(matches!(action, WriteAction::Reload));
    let (state, action) = write_step(state, WriteEvent::Reloaded(binding.deep_clone()));
    assert!(matches!(action, WriteAction::Redecide));
    let (_, action) = write_step(state, WriteEvent::Redecided(decision(true, "risky", None)));
    assert!(matches!(action, WriteAction::Write));

    let (state, _) = write_start(&binding, doc("{}"), false, true);
    let (state, _) = write_step(state, WriteEvent::Decided(decision(true, "risky", None)));
    let (state, _) = write_step(state, WriteEvent::Approval(Ok(())));
    let (_, action) = write_step(state, WriteEvent::Reloaded(doc(r#"{"draftId":"d","revision":2}"#)));
    assert_eq!(write_code(&action), "STALE_DRAFT");
}

#[test]
fn a_structure_change_runs_its_check_and_stops_when_refused() {
    let binding = doc(r#"{"name":"Folder"}"#);
    let (state, _) = write_start(&binding, doc("{}"), true, false);
    let (state, action) = write_step(state, WriteEvent::Decided(decision(true, "risky", None)));
    assert!(matches!(action, WriteAction::Check));
    let missing = ToolError::new("NOT_FOUND", "Collection not found");
    let (_, action) = write_step(state, WriteEvent::Checked(Err(missing)));
    assert_eq!(write_code(&action), "NOT_FOUND");

    let (state, _) = write_start(&binding, doc("{}"), false, false);
    let (state, _) = write_step(state, WriteEvent::Decided(decision(true, "risky", None)));
    let (state, _) = write_step(state, WriteEvent::Approval(Ok(())));
    let (_, action) = write_step(state, WriteEvent::Redecided(decision(false, "risky", None)));
    assert_eq!(write_code(&action), "ACCESS_DENIED");
}
