use tesapi::json::{json_to_string, parse_json_text, Json, JsonNumber};
use tesapi::tools::{
    body_normalization, integer, object_value, page, parse_i64, path_templates,
    request_normalization, request_reference, required, text, ToolError,
};

fn doc(text: &str) -> Json {
    parse_json_text(text).expect("test document is JSON")
}

fn show(value: &Json) -> String {
    json_to_string(value)
}

#[test]
fn integer_should_accept_string_encoded_number() {
    assert_eq!(integer(&doc(r#"{"revision":"7"}"#), "revision"), Some(7));
}

#[test]
fn integer_reads_numbers_and_rejects_other_values() {
    assert_eq!(integer(&doc(r#"{"a":-3,"b":"+12","c":"1.5","d":true,"e":1.5}"#), "a"), Some(-3));
    assert_eq!(integer(&doc(r#"{"b":"+12"}"#), "b"), Some(12));
    assert_eq!(integer(&doc(r#"{"c":"1.5"}"#), "c"), None);
    assert_eq!(integer(&doc(r#"{"d":true}"#), "d"), None);
    assert_eq!(integer(&doc(r#"{"e":1.5}"#), "e"), None);
    assert_eq!(integer(&doc(r#"{}"#), "x"), None);
    assert_eq!(parse_i64("-9223372036854775808"), Some(i64::MIN));
    assert_eq!(parse_i64("9223372036854775808"), None);
    assert_eq!(parse_i64("-"), None);
    assert_eq!(parse_i64(""), None);
}

#[test]
fn object_value_should_accept_string_encoded_json() {
    let value = object_value(&doc(r#"{"patch":"{\"method\":\"GET\"}"}"#), "patch").unwrap();
    assert_eq!(show(&value), r#"{"method":"GET"}"#);
    assert!(object_value(&doc(r#"{"patch":"[1]"}"#), "patch").is_none());
    assert!(object_value(&doc(r#"{"patch":{"a":1}}"#), "patch").is_some());
}

#[test]
fn page_should_return_stable_metadata() {
    let result = page(
        "items",
        vec![doc("1"), doc("2"), doc("3")],
        &doc(r#"{"offset":1,"limit":1}"#),
        50,
    );
    assert_eq!(
        show(&result),
        r#"{"hasMore":true,"items":[2],"limit":1,"offset":1,"total":3}"#
    );
}

#[test]
fn page_clamps_limit_and_offset() {
    let values = (0..5).map(|n| doc(&n.to_string())).collect::<Vec<_>>();
    let result = page("v", values, &doc(r#"{"offset":-4,"limit":"900"}"#), 2);
    assert_eq!(
        show(&result),
        r#"{"hasMore":false,"limit":200,"offset":0,"total":5,"v":[0,1,2,3,4]}"#
    );
    let result = page("v", vec![doc("1")], &doc(r#"{"offset":7}"#), 2);
    assert_eq!(show(&result), r#"{"hasMore":false,"limit":2,"offset":7,"total":1,"v":[]}"#);
}

#[test]
fn arguments_must_be_non_empty_text() {
    let args = doc(r#"{"workspaceId":"w","collectionId":"","requestId":"r"}"#);
    assert_eq!(text(&args, "workspaceId"), Some("w"));
    assert_eq!(text(&args, "collectionId"), None);
    assert_eq!(required(&args, "workspaceId").unwrap(), "w");
    let error = required(&args, "collectionId").unwrap_err();
    assert_eq!(error.code, "INVALID_INPUT");
    assert_eq!(error.message, "collectionId is required");
    assert_eq!(error.status, "failed");
    assert_eq!(request_reference(&args).unwrap_err().message, "collectionId is required");
}

#[test]
fn tool_error_status_follows_code() {
    assert_eq!(ToolError::new("ACCESS_DENIED", "x").status, "denied");
    assert_eq!(ToolError::new("APPROVAL_TIMEOUT", "x").status, "denied");
    assert_eq!(ToolError::new("CANCELLED", "x").status, "cancelled");
    assert_eq!(ToolError::new("OTHER", "x").status, "failed");
}

#[test]
fn normalize_should_infer_json_body_type() {
    let body = body_normalization::normalize(doc(r#"{"raw":"{\"name\":\"copy\"}"}"#));
    assert_eq!(body.get_str("type").unwrap(), "json");
}

#[test]
fn normalize_should_preserve_explicit_text_body_type() {
    let body = body_normalization::normalize(doc(r#"{"type":"text","raw":"{not json}"}"#));
    assert_eq!(body.get_str("type").unwrap(), "text");
}

#[test]
fn body_type_inference_covers_form_none_and_text() {
    let form = body_normalization::normalize(doc(r#"{"formData":[{"key":"a"}]}"#));
    assert_eq!(form.get_str("type").unwrap(), "form-data");
    let none = body_normalization::normalize(doc(r#"{"raw":"   "}"#));
    assert_eq!(none.get_str("type").unwrap(), "none");
    let text = body_normalization::normalize(doc(r#"{"type":"raw","raw":"hello"}"#));
    assert_eq!(text.get_str("type").unwrap(), "text");
}

#[test]
fn normalize_should_only_convert_declared_path_variables() {
    let request = path_templates::normalize(doc(
        r#"{"url":"{{baseUrl}}/qc/template/{{ templateId }}/duplicate?copy={{templateId}}","pathVariables":[{"key":"templateId","value":"42"}]}"#,
    ));
    assert_eq!(
        request.get_str("url").unwrap(),
        "{{baseUrl}}/qc/template/:templateId/duplicate?copy={{templateId}}"
    );
}

#[test]
fn path_templates_need_declared_keys() {
    let request = path_templates::normalize(doc(r#"{"url":"/a/{{id}}","pathVariables":[]}"#));
    assert_eq!(request.get_str("url").unwrap(), "/a/{{id}}");
}

#[test]
fn normalize_should_enable_populated_params_and_assign_id() {
    let request = request_normalization::normalize(doc(
        r#"{"params":[{"key":"page","value":"1"}],"headers":[],"body":{"type":"none"}}"#,
    ));
    let row = &request.get_array("params").unwrap()[0];
    assert!(matches!(row.get("enabled"), Some(Json::Bool(true))));
    assert_eq!(row.get_str("id").unwrap(), "mcp-row-1");
}

#[test]
fn normalize_should_keep_blank_rows_disabled() {
    let request = request_normalization::normalize(doc(
        r#"{"params":[{"key":"","value":""}],"headers":[],"body":{"type":"none"}}"#,
    ));
    let row = &request.get_array("params").unwrap()[0];
    assert!(matches!(row.get("enabled"), Some(Json::Bool(false))));
}

#[test]
fn form_rows_are_completed_and_numbered() {
    let request = request_normalization::normalize(doc(
        r#"{"body":{"formData":[{"key":"a"},{"enabled":false,"key":"b","id":"x"}]}}"#,
    ));
    let body = request.get("body").unwrap();
    assert_eq!(body.get_str("type").unwrap(), "form-data");
    let rows = body.get_array("formData").unwrap();
    assert_eq!(rows[0].get_str("id").unwrap(), "mcp-row-1");
    assert_eq!(rows[0].get_str("value").unwrap(), "");
    assert_eq!(rows[1].get_str("id").unwrap(), "x");
    assert!(matches!(rows[1].get("enabled"), Some(Json::Bool(false))));
    assert!(matches!(
        doc("3"),
        Json::Number(JsonNumber::PosInt(3))
    ));
}
