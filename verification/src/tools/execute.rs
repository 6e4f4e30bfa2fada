use vstd::prelude::*;

use crate::json::{entries_view, field, field_or_null, field_or_null_v, field_str, lemma_entries_view, string_array, Json, JsonNumber, JsonV, NumberV};
use crate::redaction::{redact_request_with_patterns, request_spec, safe_response, safe_response_spec};
use crate::text::{opt_view, from_chars, join_sep, join_strings, owned, push_chars, str_eq, strings_of, to_chars};
use crate::tools::drafts::{opt_str_json, opt_str_v};
use crate::tools::{invalid_input, is_tool_error, ToolError};
use crate::url::{parse_url_or_error, url_parse, url_parse_error, UrlInfo};

verus! {

/// The message that lists unresolved variables.
pub open spec fn unresolved_message(names: Seq<Seq<char>>) -> Seq<char> {
    "Unresolved variables: "@ + join_sep(names, ", "@)
}

/// A request may run only when every variable resolved; otherwise the
/// error lists the unresolved names.
pub fn check_resolved(unresolved: &Vec<String>) -> (r: Result<(), ToolError>)
    ensures
        unresolved.len() == 0 ==> r is Ok,
        unresolved.len() > 0 ==> (match r {
            Err(e) => is_tool_error(e, "UNRESOLVED_VARIABLE"@, unresolved_message(strings_of(unresolved@))),
            Ok(_) => false,
        }),
{
    if unresolved.len() == 0 {
        return Ok(());
    }
    let mut m = to_chars("Unresolved variables: ");
    let names = join_strings(unresolved, ", ");
    let n = to_chars(names.as_str());
    push_chars(&mut m, n.as_slice());
    let message = from_chars(m.as_slice());
    Err(ToolError::new("UNRESOLVED_VARIABLE", message.as_str()))
}

/// After approval, the request must still resolve completely.
pub fn check_still_resolved(unresolved: &Vec<String>) -> (r: Result<(), ToolError>)
    ensures
        unresolved.len() == 0 ==> r is Ok,
        unresolved.len() > 0 ==> (match r {
            Err(e) => is_tool_error(e, "UNRESOLVED_VARIABLE"@, "Variables changed after approval."@),
            Ok(_) => false,
        }),
{
    if unresolved.len() == 0 {
        Ok(())
    } else {
        Err(ToolError::new("UNRESOLVED_VARIABLE", "Variables changed after approval."))
    }
}

/// The URL of a resolved request, parsed: it must be a string and a valid
/// URL.
pub fn request_url(resolved: &Json) -> (r: Result<UrlInfo, ToolError>)
    ensures
        match field_str(resolved@, "url"@) {
            None => match r {
                Err(e) => is_tool_error(e, "INVALID_INPUT"@, "Request URL is required"@),
                Ok(_) => false,
            },
            Some(text) => match url_parse(text) {
                Some(u) => match r {
                    Ok(v) => v@ == u,
                    Err(_) => false,
                },
                None => match r {
                    Err(e) => is_tool_error(e, "INVALID_INPUT"@, "Invalid URL: "@ + url_parse_error(text)),
                    Ok(_) => false,
                },
            },
        },
{
    let text = match resolved.get_str("url") {
        Some(t) => t,
        None => return Err(invalid_input("Request URL is required")),
    };
    match parse_url_or_error(text.as_str()) {
        Ok(u) => Ok(u),
        Err(error) => {
            let mut m = to_chars("Invalid URL: ");
            let d = to_chars(error.as_str());
            push_chars(&mut m, d.as_slice());
            let message = from_chars(m.as_slice());
            Err(invalid_input(message.as_str()))
        },
    }
}

/// Only HTTP and HTTPS destinations may be called.
pub fn check_scheme(url: &UrlInfo) -> (r: Result<(), ToolError>)
    ensures
        (url.scheme@ == "http"@ || url.scheme@ == "https"@) ==> r is Ok,
        !(url.scheme@ == "http"@ || url.scheme@ == "https"@) ==> (match r {
            Err(e) => is_tool_error(e, "DESTINATION_BLOCKED"@, "Only HTTP and HTTPS URLs are allowed."@),
            Ok(_) => false,
        }),
{
    if str_eq(url.scheme.as_str(), "http") || str_eq(url.scheme.as_str(), "https") {
        Ok(())
    } else {
        Err(ToolError::new("DESTINATION_BLOCKED", "Only HTTP and HTTPS URLs are allowed."))
    }
}

/// The method of a resolved request: its `method` string, `GET` when absent.
pub open spec fn method_spec(resolved: JsonV) -> Seq<char> {
    match field_str(resolved, "method"@) {
        Some(m) => m,
        None => "GET"@,
    }
}

/// The method of a resolved request.
pub fn request_method(resolved: &Json) -> (r: String)
    ensures
        r@ == method_spec(resolved@),
{
    match resolved.get_str("method") {
        Some(m) => m.clone(),
        None => owned("GET"),
    }
}

/// What an execution's approval is bound to: the source request, the
/// environment and the resolved request.
pub open spec fn binding_spec(source: JsonV, environment_id: Seq<char>, resolved: JsonV) -> JsonV {
    JsonV::Object(seq![
        ("environmentId"@, JsonV::Str(environment_id)),
        ("resolved"@, resolved),
        ("source"@, source),
    ])
}

/// The document whose fingerprint an approval is bound to.
pub fn binding(source: &Json, environment_id: &str, resolved: &Json) -> (r: Json)
    ensures
        r@ == binding_spec(source@, environment_id@, resolved@),
{
    let es = vec![
        (owned("environmentId"), Json::Str(owned(environment_id))),
        (owned("resolved"), resolved.deep_clone()),
        (owned("source"), source.deep_clone()),
    ];
    proof {
        lemma_entries_view(es@);
        assert(entries_view(es@) =~= seq![
            ("environmentId"@, JsonV::Str(environment_id@)),
            ("resolved"@, resolved@),
            ("source"@, source@),
        ]);
    }
    Json::Object(es)
}

/// A session-wide approval may be offered unless the environment is production.
pub open spec fn allows_session_spec(risks: Seq<Seq<char>>) -> bool {
    !risks.contains("PRODUCTION_ENVIRONMENT"@)
}

/// Whether the user may approve the call for the whole session.
pub fn allows_session(risks: &Vec<String>) -> (b: bool)
    ensures
        b == allows_session_spec(strings_of(risks@)),
{
    let mut i: usize = 0;
    while i < risks.len()
        invariant
            i <= risks.len(),
            forall|k: int| 0 <= k < i ==> strings_of(risks@)[k] != "PRODUCTION_ENVIRONMENT"@,
        decreases risks.len() - i,
    {
        if str_eq(risks[i].as_str(), "PRODUCTION_ENVIRONMENT") {
            assert(strings_of(risks@)[i as int] == "PRODUCTION_ENVIRONMENT"@);
            return false;
        }
        i += 1;
    }
    proof {
        if strings_of(risks@).contains("PRODUCTION_ENVIRONMENT"@) {
            let k = choose|k: int| 0 <= k < strings_of(risks@).len() && strings_of(risks@)[k] == "PRODUCTION_ENVIRONMENT"@;
            assert(false);
        }
    }
    true
}

/// The request must be the one that was approved.
pub fn check_fingerprint(approved: &str, fresh: &str) -> (r: Result<(), ToolError>)
    ensures
        approved@ == fresh@ ==> r is Ok,
        approved@ != fresh@ ==> (match r {
            Err(e) => is_tool_error(e, "APPROVAL_STALE"@, "Request changed after approval."@),
            Ok(_) => false,
        }),
{
    if str_eq(approved, fresh) {
        Ok(())
    } else {
        Err(ToolError::new("APPROVAL_STALE", "Request changed after approval."))
    }
}

/// The destination's risks must be the ones that were approved.
pub fn check_risks(approved: &Vec<String>, fresh: &Vec<String>) -> (r: Result<(), ToolError>)
    ensures
        strings_of(approved@) == strings_of(fresh@) ==> r is Ok,
        strings_of(approved@) != strings_of(fresh@) ==> (match r {
            Err(e) => is_tool_error(e, "APPROVAL_STALE"@, "Destination risk changed after approval."@),
            Ok(_) => false,
        }),
{
    if approved.len() != fresh.len() {
        assert(strings_of(approved@).len() != strings_of(fresh@).len());
        return Err(ToolError::new("APPROVAL_STALE", "Destination risk changed after approval."));
    }
    let mut same = true;
    let mut i: usize = 0;
    while i < approved.len()
        invariant
            i <= approved.len(),
            approved.len() == fresh.len(),
            same ==> forall|k: int| 0 <= k < i ==> strings_of(approved@)[k] == strings_of(fresh@)[k],
            !same ==> strings_of(approved@) != strings_of(fresh@),
        ensures
            same ==> i == approved.len(),
            same ==> forall|k: int| 0 <= k < i ==> strings_of(approved@)[k] == strings_of(fresh@)[k],
            !same ==> strings_of(approved@) != strings_of(fresh@),
        decreases approved.len() - i,
    {
        if !str_eq(approved[i].as_str(), fresh[i].as_str()) {
            assert(strings_of(approved@)[i as int] != strings_of(fresh@)[i as int]);
            same = false;
            break;
        }
        i += 1;
    }
    if same {
        assert(strings_of(approved@) =~= strings_of(fresh@));
        Ok(())
    } else {
        Err(ToolError::new("APPROVAL_STALE", "Destination risk changed after approval."))
    }
}


/// A count as a JSON number.
pub open spec fn count_v(n: u64) -> JsonV {
    JsonV::Number(NumberV::PosInt(n))
}

/// What the user is shown when asked to approve an execution: where the
/// request goes, in which environment, its risks and the request itself,
/// redacted with the sensitive key patterns.
pub open spec fn execute_summary_spec(
    workspace_id: Seq<char>,
    collection_id: Option<Seq<char>>,
    request_id: Option<Seq<char>>,
    method: Seq<char>,
    url: Seq<char>,
    environment_id: Seq<char>,
    environment_class: Option<Seq<char>>,
    risks: Seq<Seq<char>>,
    request: JsonV,
    patterns: Seq<Seq<char>>,
) -> JsonV {
    JsonV::Object(seq![
        ("action"@, JsonV::Str("execute"@)),
        ("allowSession"@, JsonV::Bool(allows_session_spec(risks))),
        ("collectionId"@, opt_str_v(collection_id)),
        ("environmentClass"@, opt_str_v(environment_class)),
        ("environmentId"@, JsonV::Str(environment_id)),
        ("method"@, JsonV::Str(method)),
        ("request"@, request_spec(request, patterns)),
        ("requestId"@, opt_str_v(request_id)),
        ("risks"@, JsonV::Array(risks.map_values(|r: Seq<char>| JsonV::Str(r)))),
        ("url"@, JsonV::Str(url)),
        ("workspaceId"@, JsonV::Str(workspace_id)),
    ])
}

/// The approval summary of an execution; `url` is the parsed URL.
pub fn execute_summary(
    workspace_id: &str,
    collection_id: &Option<String>,
    request_id: &Option<String>,
    method: &str,
    url: &UrlInfo,
    environment_id: &str,
    environment_class: &Option<String>,
    risks: &Vec<String>,
    request: &Json,
    sensitive_patterns: &[String],
) -> (r: Json)
    ensures
        r@ == execute_summary_spec(
            workspace_id@,
            opt_view(*collection_id),
            opt_view(*request_id),
            method@,
            url@.href,
            environment_id@,
            opt_view(*environment_class),
            strings_of(risks@),
            request@,
            strings_of(sensitive_patterns@),
        ),
{
    let es = vec![
        (owned("action"), Json::Str(owned("execute"))),
        (owned("allowSession"), Json::Bool(allows_session(risks))),
        (owned("collectionId"), opt_str_json(collection_id)),
        (owned("environmentClass"), opt_str_json(environment_class)),
        (owned("environmentId"), Json::Str(owned(environment_id))),
        (owned("method"), Json::Str(owned(method))),
        (owned("request"), redact_request_with_patterns(request, sensitive_patterns)),
        (owned("requestId"), opt_str_json(request_id)),
        (owned("risks"), string_array(risks.as_slice())),
        (owned("url"), Json::Str(url.href.clone())),
        (owned("workspaceId"), Json::Str(owned(workspace_id))),
    ];
    proof {
        lemma_entries_view(es@);
        assert(entries_view(es@) =~= seq![
            ("action"@, JsonV::Str("execute"@)),
            ("allowSession"@, JsonV::Bool(allows_session_spec(strings_of(risks@)))),
            ("collectionId"@, opt_str_v(opt_view(*collection_id))),
            ("environmentClass"@, opt_str_v(opt_view(*environment_class))),
            ("environmentId"@, JsonV::Str(environment_id@)),
            ("method"@, JsonV::Str(method@)),
            ("request"@, request_spec(request@, strings_of(sensitive_patterns@))),
            ("requestId"@, opt_str_v(opt_view(*request_id))),
            ("risks"@, JsonV::Array(strings_of(risks@).map_values(|r: Seq<char>| JsonV::Str(r)))),
            ("url"@, JsonV::Str(url@.href)),
            ("workspaceId"@, JsonV::Str(workspace_id@)),
        ]);
    }
    Json::Object(es)
}

/// What an execution returns: the status, timing and size of the response,
/// with its headers redacted and its body scrubbed of secrets and cut to
/// 64 KiB.
pub open spec fn execution_output_spec(
    status: u16,
    status_text: Seq<char>,
    time_ms: u64,
    size_bytes: u64,
    headers: JsonV,
    body: Seq<char>,
    secrets: Seq<Seq<char>>,
    patterns: Seq<Seq<char>>,
) -> JsonV {
    let safe = safe_response_spec(headers, body, secrets, patterns, 65536);
    JsonV::Object(seq![
        ("body"@, field_or_null_v(safe, "body"@)),
        ("durationMs"@, count_v(time_ms)),
        ("headers"@, field_or_null_v(safe, "headers"@)),
        ("sizeBytes"@, count_v(size_bytes)),
        ("status"@, count_v(status as u64)),
        ("statusText"@, JsonV::Str(status_text)),
        ("truncated"@, field_or_null_v(safe, "truncated"@)),
    ])
}

/// The output of an executed request.
pub fn execution_output(
    status: u16,
    status_text: &str,
    time_ms: u64,
    size_bytes: u64,
    headers: &Json,
    body: &str,
    secrets: &[String],
    sensitive_patterns: &[String],
) -> (r: Json)
    ensures
        r@ == execution_output_spec(
            status,
            status_text@,
            time_ms,
            size_bytes,
            headers@,
            body@,
            strings_of(secrets@),
            strings_of(sensitive_patterns@),
        ),
{
    let safe = safe_response(headers, body, secrets, sensitive_patterns, 65536);
    let es = vec![
        (owned("body"), field_or_null(&safe, "body")),
        (owned("durationMs"), Json::Number(JsonNumber::PosInt(time_ms))),
        (owned("headers"), field_or_null(&safe, "headers")),
        (owned("sizeBytes"), Json::Number(JsonNumber::PosInt(size_bytes))),
        (owned("status"), Json::Number(JsonNumber::PosInt(status as u64))),
        (owned("statusText"), Json::Str(owned(status_text))),
        (owned("truncated"), field_or_null(&safe, "truncated")),
    ];
    proof {
        lemma_entries_view(es@);
        assert(entries_view(es@) =~= seq![
            ("body"@, field_or_null_v(safe@, "body"@)),
            ("durationMs"@, count_v(time_ms)),
            ("headers"@, field_or_null_v(safe@, "headers"@)),
            ("sizeBytes"@, count_v(size_bytes)),
            ("status"@, count_v(status as u64)),
            ("statusText"@, JsonV::Str(status_text@)),
            ("truncated"@, field_or_null_v(safe@, "truncated"@)),
        ]);
    }
    Json::Object(es)
}

/// The line that an execution appends to the workspace's history: its id
/// and time, the method and URL of the source request (`null` when
/// absent), the response's status, timing and size, and the request.
pub open spec fn history_entry_spec(id: Seq<char>, ts: Seq<char>, request: JsonV, status: u16, time_ms: u64, size_bytes: u64) -> JsonV {
    JsonV::Object(seq![
        ("durationMs"@, count_v(time_ms)),
        ("id"@, JsonV::Str(id)),
        ("method"@, field_or_null_v(request, "method"@)),
        ("request"@, request),
        ("sizeBytes"@, count_v(size_bytes)),
        ("status"@, count_v(status as u64)),
        ("ts"@, JsonV::Str(ts)),
        ("url"@, field_or_null_v(request, "url"@)),
    ])
}

/// The history entry of an execution.
pub fn history_entry(id: &str, ts: &str, request: &Json, status: u16, time_ms: u64, size_bytes: u64) -> (r: Json)
    ensures
        r@ == history_entry_spec(id@, ts@, request@, status, time_ms, size_bytes),
{
    let es = vec![
        (owned("durationMs"), Json::Number(JsonNumber::PosInt(time_ms))),
        (owned("id"), Json::Str(owned(id))),
        (owned("method"), field_or_null(request, "method")),
        (owned("request"), request.deep_clone()),
        (owned("sizeBytes"), Json::Number(JsonNumber::PosInt(size_bytes))),
        (owned("status"), Json::Number(JsonNumber::PosInt(status as u64))),
        (owned("ts"), Json::Str(owned(ts))),
        (owned("url"), field_or_null(request, "url")),
    ];
    proof {
        lemma_entries_view(es@);
        assert(entries_view(es@) =~= seq![
            ("durationMs"@, count_v(time_ms)),
            ("id"@, JsonV::Str(id@)),
            ("method"@, field_or_null_v(request@, "method"@)),
            ("request"@, request@),
            ("sizeBytes"@, count_v(size_bytes)),
            ("status"@, count_v(status as u64)),
            ("ts"@, JsonV::Str(ts@)),
            ("url"@, field_or_null_v(request@, "url"@)),
        ]);
    }
    Json::Object(es)
}

} // verus!
