use tesapi::cloud::{
    check_device_name, check_revision, mutation, mutation_operation, parse_connection,
    push_status, revision_of, uuid_v4,
};
use tesapi::json::{json_to_string, parse_json_text};

#[test]
fn generated_mutation_id_is_uuid_v4() {
    let id = uuid_v4().unwrap();
    assert_eq!(id.len(), 36);
    assert_eq!(&id[14..15], "4");
    assert!(matches!(&id[19..20], "8" | "9" | "a" | "b"));
}

#[test]
fn connection_url_requires_https_outside_localhost() {
    let (base, token) =
        parse_connection("http://127.0.0.1:18080/connect#enrollment=test").unwrap();
    assert_eq!(base, "http://127.0.0.1:18080");
    assert_eq!(token, "test");
    assert!(parse_connection("http://sync.example.com/connect#enrollment=test").is_err());
}

#[test]
fn connection_url_errors_name_the_problem() {
    assert_eq!(parse_connection("not a url").unwrap_err(), "Connection URL is invalid.");
    assert_eq!(
        parse_connection("https://sync.example.com/connect").unwrap_err(),
        "Connection URL is missing its enrollment secret."
    );
    assert_eq!(
        parse_connection("https://sync.example.com/connect#enrollment=").unwrap_err(),
        "Connection URL is missing its enrollment secret."
    );
    let (base, token) = parse_connection("  https://sync.example.com:8443/x#enrollment=abc ").unwrap();
    assert_eq!(base, "https://sync.example.com:8443");
    assert_eq!(token, "abc");
}

#[test]
fn device_names_and_revisions_are_checked() {
    assert_eq!(check_device_name("  laptop ").unwrap(), "laptop");
    assert!(check_device_name("   ").is_err());
    assert!(check_device_name(&"x".repeat(121)).is_err());
    assert!(check_revision("c1", 1).is_ok());
    assert!(check_revision(" ", 1).is_err());
    assert!(check_revision("c1", 0).is_err());
}

#[test]
fn push_mutations_follow_the_revision() {
    assert_eq!(mutation_operation(false, 3), "delete");
    assert_eq!(mutation_operation(true, 0), "create");
    assert_eq!(mutation_operation(true, 2), "update");
    let m = mutation("m1", "c1", 0, Some(parse_json_text(r#"{"collection":{}}"#).unwrap()));
    assert_eq!(
        json_to_string(&m),
        r#"{"baseRevision":0,"entityId":"c1","entityType":"collection","mutationId":"m1","operation":"create","payload":{"collection":{}},"schemaVersion":1}"#
    );
    assert!(push_status(201).is_ok());
    assert!(push_status(409).unwrap_err().contains("conflict"));
    assert_eq!(push_status(500).unwrap_err(), "Cloud push was rejected by the server.");
    assert_eq!(revision_of(&parse_json_text(r#"{"results":[{"revision":7}]}"#).unwrap()), Ok(7));
    assert!(revision_of(&parse_json_text(r#"{"results":[]}"#).unwrap()).is_err());
}
