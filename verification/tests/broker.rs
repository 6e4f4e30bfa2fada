use tesapi::broker::{error_response, intake, plan, request_id_of, Intake, Plan, RateLimiter};
use tesapi::json::Json;
use tesapi::types::BrokerRequest;

fn request(client: &str) -> BrokerRequest {
    BrokerRequest {
        request_id: "r1".into(),
        client_id: client.into(),
        token: "t".into(),
        session_id: None,
        action: "call".into(),
        tool_name: Some("tesapi_list_workspaces".into()),
        arguments: Json::Null,
        protocol_version: None,
    }
}

#[test]
fn rate_limit_allows_120_calls_per_minute() {
    let mut limiter = RateLimiter::new();
    for i in 0..120u64 {
        assert!(limiter.allow("a", 1_000 + i));
    }
    assert!(!limiter.allow("a", 2_000));
    assert!(limiter.allow("b", 2_000));
    assert!(limiter.allow("a", 61_120));
}

#[test]
fn intake_refuses_oversized_and_invalid_messages() {
    let mut limiter = RateLimiter::new();
    match intake(2 * 1024 * 1024, "x".into(), Ok(request("a")), &mut limiter, 0) {
        Intake::Respond(r) => assert_eq!(r.error_code.as_deref(), Some("INPUT_LIMIT")),
        Intake::Dispatch(_) => panic!("oversized message dispatched"),
    }
    match intake(10, "x".into(), Err("bad".into()), &mut limiter, 0) {
        Intake::Respond(r) => {
            assert_eq!(r.request_id, "x");
            assert_eq!(r.error_code.as_deref(), Some("INVALID_REQUEST"));
            assert_eq!(r.error_message.as_deref(), Some("bad"));
        }
        Intake::Dispatch(_) => panic!("invalid message dispatched"),
    }
    assert!(matches!(intake(10, "x".into(), Ok(request("a")), &mut limiter, 0), Intake::Dispatch(_)));
}

#[test]
fn request_ids_and_plans() {
    assert_eq!(request_id_of(br#"{"requestId":"abc"}"#), "abc");
    assert_eq!(request_id_of(b"not json"), "");
    assert!(matches!(plan("hello", &None), Plan::Hello));
    assert!(matches!(plan("call", &None), Plan::MissingTool));
    assert!(matches!(plan("call", &Some("t".into())), Plan::Call(name) if name == "t"));
    let e = error_response("r", "CODE", "message");
    assert!(!e.ok && e.session_id.is_none() && e.error_code.as_deref() == Some("CODE"));
}
