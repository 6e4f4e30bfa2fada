use tesapi::broker::{check_credentials, check_session};
use tesapi::companion::{
    call_reply, definitions, executable_names, hello_request, hello_session, input_schema, parse_args, CallReply,
};
use tesapi::json::{json_to_string, Json};
use tesapi::security::hash;
use tesapi::tools::tool_group;
use tesapi::types::BrokerResponse;

fn response(ok: bool, error_message: Option<&str>, session_id: Option<&str>) -> BrokerResponse {
    BrokerResponse {
        request_id: "r".into(),
        ok,
        result: None,
        error_code: if ok { None } else { Some("CODE".into()) },
        error_message: error_message.map(|s| s.to_string()),
        session_id: session_id.map(|s| s.to_string()),
    }
}

#[test]
fn update_draft_schema_should_type_revision_as_integer() {
    let tools = definitions();
    let tool = tools.iter().find(|tool| tool.name == "tesapi_update_request_draft").unwrap();
    let schema = input_schema(tool);
    let revision_type = schema
        .get("properties")
        .and_then(|p| p.get("revision"))
        .and_then(|r| r.get_str("type"))
        .map(|s| s.as_str());
    assert_eq!(revision_type, Some("integer"));
}

#[test]
fn every_defined_tool_is_routed() {
    let tools = definitions();
    assert_eq!(tools.len(), 13);
    for tool in &tools {
        assert!(tool_group(tool.name).is_ok(), "{} is not routed", tool.name);
        assert!(!(tool.read_only && tool.open_world));
    }
}

#[test]
fn schemas_list_required_properties_in_order() {
    let tools = definitions();
    let tool = tools.iter().find(|tool| tool.name == "tesapi_create_folder").unwrap();
    let text = json_to_string(&input_schema(tool));
    assert!(text.contains(r#""required":["workspaceId","collectionId","name"]"#));
    assert!(text.contains(r#""additionalProperties":true"#));
    assert!(text.contains(r#""parentFolderId":{"type":"string"}"#));
}

#[test]
fn parse_args_reads_each_required_flag() {
    let args: Vec<String> = ["--client-id", "c", "--token", "t", "--endpoint", "e", "--token", "t2"]
        .iter()
        .map(|s| s.to_string())
        .collect();
    assert_eq!(parse_args(&args), Ok(("c".to_string(), "t2".to_string(), "e".to_string())));
    let missing: Vec<String> = ["--client-id", "c", "--endpoint", "e", "--token"].iter().map(|s| s.to_string()).collect();
    assert_eq!(parse_args(&missing), Err("--token is required".to_string()));
    assert_eq!(parse_args(&vec![]), Err("--client-id is required".to_string()));
}

#[test]
fn hello_and_sessions() {
    let hello = hello_request("id".into(), "client", "token");
    assert_eq!(hello.action, "hello");
    assert_eq!(hello.protocol_version.as_deref(), Some("2025-11-25"));
    assert!(hello.session_id.is_none());
    assert_eq!(hello_session(response(true, None, Some("s1"))), Ok("s1".to_string()));
    assert_eq!(hello_session(response(false, Some("nope"), None)), Err("nope".to_string()));
    assert_eq!(hello_session(response(false, None, None)), Err("TesAPI authentication failed".to_string()));
    assert_eq!(hello_session(response(true, None, None)), Err("TesAPI did not create a session".to_string()));
}

#[test]
fn call_replies() {
    match call_reply(Ok(response(true, None, Some("s")))) {
        CallReply::Structured(v) => assert!(matches!(v, Json::Null)),
        other => panic!("unexpected {:?}", other),
    }
    match call_reply(Ok(response(false, Some("bad"), None))) {
        CallReply::Error(v) => assert_eq!(json_to_string(&v), r#"{"code":"CODE","message":"bad"}"#),
        other => panic!("unexpected {:?}", other),
    }
    match call_reply(Err("down".into())) {
        CallReply::Error(v) => assert_eq!(json_to_string(&v), r#"{"code":"TESAPI_UNAVAILABLE","message":"down"}"#),
        other => panic!("unexpected {:?}", other),
    }
    assert_eq!(executable_names(true), vec!["tesapi.exe", "TesAPI.exe"]);
    assert_eq!(executable_names(false), vec!["tesapi", "TesAPI"]);
}

#[test]
fn credentials_and_sessions_are_checked() {
    let stored = hash("secret");
    assert_eq!(check_credentials(None, "secret"), Err("Client is not configured".to_string()));
    assert_eq!(check_credentials(Some((true, stored.as_str())), "secret"), Ok(()));
    assert_eq!(check_credentials(Some((true, stored.as_str())), "other"), Err("Client authentication failed".to_string()));
    assert_eq!(check_credentials(Some((false, stored.as_str())), "secret"), Err("Client authentication failed".to_string()));
    assert!(check_session(false, false).is_ok());
    assert!(check_session(true, true).is_ok());
    assert_eq!(check_session(true, false), Err("Session is no longer active".to_string()));
}
