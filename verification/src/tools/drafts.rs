use vstd::prelude::*;

use crate::json::{entries_view, field, has_field, lemma_entries_view, obj_insert, obj_set, Json, JsonNumber, JsonV, NumberV};
use crate::redaction::{redact_request, request_spec};
use crate::text::{from_chars, matches_at, occurs_at, opt_view, owned, push_chars, str_eq, to_chars};
use crate::tools::path_templates;
use crate::tools::request_normalization;
use crate::tools::{invalid_input, is_tool_error, object_value, object_value_spec, ToolError};
use crate::types::McpDraft;

verus! {

/// What is wrong with a request that a draft would hold: it must be an
/// object with a method, URL, parameters, headers, body and auth.
pub open spec fn request_problem(request: JsonV) -> Option<Seq<char>> {
    if !(request is Object) {
        Some("request must be an object"@)
    } else if !has_field(request, "method"@) {
        Some("request.method is required"@)
    } else if !has_field(request, "url"@) {
        Some("request.url is required"@)
    } else if !has_field(request, "params"@) {
        Some("request.params is required"@)
    } else if !has_field(request, "headers"@) {
        Some("request.headers is required"@)
    } else if !has_field(request, "body"@) {
        Some("request.body is required"@)
    } else if !has_field(request, "auth"@) {
        Some("request.auth is required"@)
    } else {
        None
    }
}

/// Checks that a request has every field a draft needs.
pub fn validate_request(request: &Json) -> (r: Result<(), ToolError>)
    ensures
        match request_problem(request@) {
            None => r is Ok,
            Some(m) => match r {
                Err(e) => is_tool_error(e, "INVALID_INPUT"@, m),
                Ok(_) => false,
            },
        },
{
    match request {
        Json::Object(_) => {},
        _ => return Err(invalid_input("request must be an object")),
    }
    if request.get("method").is_none() {
        return Err(invalid_input("request.method is required"));
    }
    if request.get("url").is_none() {
        return Err(invalid_input("request.url is required"));
    }
    if request.get("params").is_none() {
        return Err(invalid_input("request.params is required"));
    }
    if request.get("headers").is_none() {
        return Err(invalid_input("request.headers is required"));
    }
    if request.get("body").is_none() {
        return Err(invalid_input("request.body is required"));
    }
    if request.get("auth").is_none() {
        return Err(invalid_input("request.auth is required"));
    }
    Ok(())
}

/// The fields of a draft request that a patch may change.
pub open spec fn is_draft_field(key: Seq<char>) -> bool {
    ||| key == "name"@
    ||| key == "method"@
    ||| key == "url"@
    ||| key == "params"@
    ||| key == "pathVariables"@
    ||| key == "headers"@
    ||| key == "body"@
    ||| key == "auth"@
}

fn is_draft_field_exec(key: &str) -> (b: bool)
    ensures
        b == is_draft_field(key@),
{
    str_eq(key, "name") || str_eq(key, "method") || str_eq(key, "url") || str_eq(key, "params")
        || str_eq(key, "pathVariables") || str_eq(key, "headers") || str_eq(key, "body")
        || str_eq(key, "auth")
}

/// The entries of a request after the patch's entries are set one by one,
/// in order; the first key that is not a draft field stops the patch and
/// is returned.
pub open spec fn patch_entries(
    request: Seq<(Seq<char>, JsonV)>,
    patch: Seq<(Seq<char>, JsonV)>,
) -> Result<Seq<(Seq<char>, JsonV)>, Seq<char>>
    decreases patch.len(),
{
    if patch.len() == 0 {
        Ok(request)
    } else {
        match patch_entries(request, patch.drop_last()) {
            Ok(r) => if is_draft_field(patch.last().0) {
                Ok(obj_insert(r, patch.last().0, patch.last().1))
            } else {
                Err(patch.last().0)
            },
            Err(k) => Err(k),
        }
    }
}

/// The message for a patch key that may not be changed.
pub open spec fn field_refused(key: Seq<char>) -> Seq<char> {
    "Draft field cannot be changed: "@ + key
}

fn refused(key: &str) -> (e: ToolError)
    ensures
        is_tool_error(e, "INVALID_INPUT"@, field_refused(key@)),
{
    let mut m = to_chars("Draft field cannot be changed: ");
    let k = to_chars(key);
    push_chars(&mut m, k.as_slice());
    let message = from_chars(m.as_slice());
    invalid_input(message.as_str())
}

/// Sets each entry of the patch on the request's entries, in order; a key
/// that is not a draft field is refused.
pub fn patch_request(
    request: Vec<(String, Json)>,
    patch: &Vec<(String, Json)>,
) -> (r: Result<Vec<(String, Json)>, ToolError>)
    ensures
        match patch_entries(entries_view(request@), entries_view(patch@)) {
            Ok(es) => match r {
                Ok(v) => entries_view(v@) == es,
                Err(_) => false,
            },
            Err(k) => match r {
                Err(e) => is_tool_error(e, "INVALID_INPUT"@, field_refused(k)),
                Ok(_) => false,
            },
        },
{
    let ghost start = entries_view(request@);
    let mut out = request;
    let mut i: usize = 0;
    proof {
        lemma_entries_view(patch@);
        assert(entries_view(patch@.take(0)) =~= seq![]);
    }
    while i < patch.len()
        invariant
            i <= patch.len(),
            start == entries_view(request@),
            patch_entries(start, entries_view(patch@.take(i as int))) == Ok::<Seq<(Seq<char>, JsonV)>, Seq<char>>(entries_view(out@)),
        decreases patch.len() - i,
    {
        let ghost prefix = entries_view(patch@.take(i as int));
        proof {
            assert(patch@.take(i + 1).drop_last() == patch@.take(i as int));
            assert(patch@.take(i + 1).last() == patch@[i as int]);
            assert(entries_view(patch@.take(i + 1)).drop_last() == prefix);
            assert(entries_view(patch@.take(i + 1)).last() == (patch@[i as int].0@, patch@[i as int].1@));
        }
        let key = &patch[i].0;
        if !is_draft_field_exec(key.as_str()) {
            proof {
                assert(patch_entries(start, entries_view(patch@.take(i + 1))) == Err::<Seq<(Seq<char>, JsonV)>, Seq<char>>(key@));
                lemma_entries_view(patch@);
                lemma_entries_view(patch@.take(i + 1));
                assert(entries_view(patch@).take(i + 1) =~= entries_view(patch@.take(i + 1)));
                lemma_patch_stops(start, entries_view(patch@), i as int + 1);
                assert(patch_entries(start, entries_view(patch@)) == Err::<Seq<(Seq<char>, JsonV)>, Seq<char>>(key@));
            }
            return Err(refused(key.as_str()));
        }
        obj_set(&mut out, key.as_str(), patch[i].1.deep_clone());
        i += 1;
    }
    proof {
        assert(patch@.take(patch.len() as int) == patch@);
    }
    Ok(out)
}

/// Once a prefix of the patch is refused, the whole patch is refused with the same key.
pub proof fn lemma_patch_stops(request: Seq<(Seq<char>, JsonV)>, patch: Seq<(Seq<char>, JsonV)>, n: int)
    requires
        0 <= n <= patch.len(),
        patch_entries(request, patch.take(n)) is Err,
    ensures
        patch_entries(request, patch) == patch_entries(request, patch.take(n)),
    decreases patch.len() - n,
{
    if n < patch.len() {
        assert(patch.take(n + 1).drop_last() == patch.take(n));
        lemma_patch_stops(request, patch, n + 1);
    } else {
        assert(patch.take(n) == patch);
    }
}

/// The request after path variables and rows are normalized.
pub open spec fn normalized_request(request: JsonV) -> JsonV {
    request_normalization::normalize_spec(path_templates::normalize_spec(request))
}

/// A normalized request, or the problem that keeps it from being a draft.
pub open spec fn prepared_request(request: JsonV) -> Result<JsonV, Seq<char>> {
    let n = normalized_request(request);
    match request_problem(n) {
        None => Ok(n),
        Some(m) => Err(m),
    }
}

/// Normalizes a request and checks that it can be a draft.
pub fn prepare_request(request: Json) -> (r: Result<Json, ToolError>)
    ensures
        match prepared_request(request@) {
            Ok(v) => match r {
                Ok(j) => j@ == v,
                Err(_) => false,
            },
            Err(m) => match r {
                Err(e) => is_tool_error(e, "INVALID_INPUT"@, m),
                Ok(_) => false,
            },
        },
{
    let request = path_templates::normalize(request);
    let request = request_normalization::normalize(request);
    match validate_request(&request) {
        Ok(()) => Ok(request),
        Err(e) => Err(e),
    }
}

/// The request of a new draft when nothing is given:
/// `GET` with an empty URL, no rows, no body and no auth.
pub open spec fn default_request_v() -> JsonV {
    JsonV::Object(seq![
        ("auth"@, JsonV::Object(seq![("type"@, JsonV::Str("none"@))])),
        ("body"@, JsonV::Object(seq![("type"@, JsonV::Str("none"@))])),
        ("headers"@, JsonV::Array(seq![])),
        ("id"@, JsonV::Str(""@)),
        ("method"@, JsonV::Str("GET"@)),
        ("name"@, JsonV::Str("Untitled request"@)),
        ("params"@, JsonV::Array(seq![])),
        ("url"@, JsonV::Str(""@)),
    ])
}

fn type_none() -> (r: Json)
    ensures
        r@ == JsonV::Object(seq![("type"@, JsonV::Str("none"@))]),
{
    let es = vec![(owned("type"), Json::Str(owned("none")))];
    proof {
        lemma_entries_view(es@);
        assert(entries_view(es@) =~= seq![("type"@, JsonV::Str("none"@))]);
    }
    Json::Object(es)
}

/// The request of a new draft when nothing is given.
pub fn default_request() -> (r: Json)
    ensures
        r@ == default_request_v(),
{
    let es = vec![
        (owned("auth"), type_none()),
        (owned("body"), type_none()),
        (owned("headers"), Json::Array(Vec::new())),
        (owned("id"), Json::Str(owned(""))),
        (owned("method"), Json::Str(owned("GET"))),
        (owned("name"), Json::Str(owned("Untitled request"))),
        (owned("params"), Json::Array(Vec::new())),
        (owned("url"), Json::Str(owned(""))),
    ];
    proof {
        lemma_entries_view(es@);
        assert(entries_view(es@) =~= seq![
            ("auth"@, JsonV::Object(seq![("type"@, JsonV::Str("none"@))])),
            ("body"@, JsonV::Object(seq![("type"@, JsonV::Str("none"@))])),
            ("headers"@, JsonV::Array(seq![])),
            ("id"@, JsonV::Str(""@)),
            ("method"@, JsonV::Str("GET"@)),
            ("name"@, JsonV::Str("Untitled request"@)),
            ("params"@, JsonV::Array(seq![])),
            ("url"@, JsonV::Str(""@)),
        ]);
    }
    Json::Object(es)
}

/// The request a new draft starts from: the saved request's `request`
/// field when a saved request was named, else the `request` argument
/// (an object or its JSON text), else the default request.
pub open spec fn initial_request(arguments: JsonV, saved: Option<JsonV>) -> Result<JsonV, Seq<char>> {
    match saved {
        Some(doc) => match field(doc, "request"@) {
            Some(r) => Ok(r),
            None => Err("Saved request is invalid"@),
        },
        None => if has_field(arguments, "request"@) {
            match object_value_spec(arguments, "request"@) {
                Some(o) => Ok(o),
                None => Err("request must be an object"@),
            }
        } else {
            Ok(default_request_v())
        },
    }
}

/// What a new draft holds, or the problem with it.
pub open spec fn new_draft_spec(arguments: JsonV, saved: Option<JsonV>) -> Result<JsonV, Seq<char>> {
    match initial_request(arguments, saved) {
        Ok(r) => prepared_request(r),
        Err(m) => Err(m),
    }
}

/// The request of a new draft, normalized and checked. `saved` is the
/// saved request document when the arguments name both a collection and a
/// request.
pub fn new_draft_request(arguments: &Json, saved: Option<&Json>) -> (r: Result<Json, ToolError>)
    ensures
        match new_draft_spec(arguments@, match saved { Some(d) => Some(d@), None => None }) {
            Ok(v) => match r {
                Ok(j) => j@ == v,
                Err(_) => false,
            },
            Err(m) => match r {
                Err(e) => is_tool_error(e, "INVALID_INPUT"@, m),
                Ok(_) => false,
            },
        },
{
    let request = match saved {
        Some(doc) => match doc.get("request") {
            Some(r) => r.deep_clone(),
            None => return Err(invalid_input("Saved request is invalid")),
        },
        None => if arguments.get("request").is_some() {
            match object_value(arguments, "request") {
                Some(o) => o,
                None => return Err(invalid_input("request must be an object")),
            }
        } else {
            default_request()
        },
    };
    prepare_request(request)
}

/// What an updated draft holds: the `patch` argument (an object or its
/// JSON text) set on the draft's request, then normalized and checked.
pub open spec fn updated_draft_spec(request: JsonV, arguments: JsonV) -> Result<JsonV, Seq<char>> {
    match object_value_spec(arguments, "patch"@) {
        None => Err("patch must be an object"@),
        Some(JsonV::Object(patch)) => match request {
            JsonV::Object(es) => match patch_entries(es, patch) {
                Ok(patched) => prepared_request(JsonV::Object(patched)),
                Err(k) => Err(field_refused(k)),
            },
            _ => Err("Draft request is invalid"@),
        },
        Some(_) => Err("patch must be an object"@),
    }
}

/// The request of a draft after the `patch` argument is applied.
pub fn updated_draft_request(request: Json, arguments: &Json) -> (r: Result<Json, ToolError>)
    ensures
        match updated_draft_spec(request@, arguments@) {
            Ok(v) => match r {
                Ok(j) => j@ == v,
                Err(_) => false,
            },
            Err(m) => match r {
                Err(e) => is_tool_error(e, "INVALID_INPUT"@, m),
                Ok(_) => false,
            },
        },
{
    let patch = match object_value(arguments, "patch") {
        Some(Json::Object(es)) => es,
        _ => return Err(invalid_input("patch must be an object")),
    };
    let entries = match request {
        Json::Object(es) => es,
        _ => return Err(invalid_input("Draft request is invalid")),
    };
    match patch_request(entries, &patch) {
        Ok(patched) => prepare_request(Json::Object(patched)),
        Err(e) => Err(e),
    }
}

/// The error for a failed draft update: a stale revision keeps its message
/// under `STALE_DRAFT`; anything else is an internal error.
pub fn update_failure(error: &str) -> (r: ToolError)
    ensures
        occurs_at(error@, 0, "STALE_DRAFT"@) ==> is_tool_error(r, "STALE_DRAFT"@, error@),
        !occurs_at(error@, 0, "STALE_DRAFT"@) ==> is_tool_error(r, "INTERNAL_ERROR"@, error@),
{
    let e = to_chars(error);
    let p = to_chars("STALE_DRAFT");
    if matches_at(e.as_slice(), 0, p.as_slice()) {
        ToolError::new("STALE_DRAFT", error)
    } else {
        ToolError::new("INTERNAL_ERROR", error)
    }
}

/// A JSON integer as serde writes an `i64`.
pub open spec fn int_v(v: i64) -> JsonV {
    if v >= 0 {
        JsonV::Number(NumberV::PosInt(v as u64))
    } else {
        JsonV::Number(NumberV::NegInt(v))
    }
}

/// An `i64` as a JSON number.
pub fn int_json(v: i64) -> (r: Json)
    ensures
        r@ == int_v(v),
{
    if v >= 0 {
        Json::Number(JsonNumber::PosInt(v as u64))
    } else {
        Json::Number(JsonNumber::NegInt(v))
    }
}

/// An optional string as JSON: the string, or `null`.
pub open spec fn opt_str_v(o: Option<Seq<char>>) -> JsonV {
    match o {
        Some(s) => JsonV::Str(s),
        None => JsonV::Null,
    }
}

/// An optional string as JSON.
pub fn opt_str_json(o: &Option<String>) -> (r: Json)
    ensures
        r@ == opt_str_v(opt_view(*o)),
{
    match o {
        Some(s) => Json::Str(s.clone()),
        None => Json::Null,
    }
}

/// What a draft tool returns for a draft: its identity, origin, revision,
/// times, and its request redacted.
pub open spec fn draft_output_spec(d: McpDraft) -> JsonV {
    JsonV::Object(seq![
        ("expiresAt"@, int_v(d.expires_at)),
        ("id"@, JsonV::Str(d.id@)),
        ("originCollectionId"@, opt_str_v(opt_view(d.origin_collection_id))),
        ("originRequestId"@, opt_str_v(opt_view(d.origin_request_id))),
        ("request"@, request_spec(d.request@, seq![])),
        ("revision"@, int_v(d.revision)),
        ("updatedAt"@, int_v(d.updated_at)),
        ("workspaceId"@, JsonV::Str(d.workspace_id@)),
    ])
}

/// The output of a draft tool for a draft.
pub fn draft_output(draft: &McpDraft) -> (r: Json)
    ensures
        r@ == draft_output_spec(*draft),
{
    let es = vec![
        (owned("expiresAt"), int_json(draft.expires_at)),
        (owned("id"), Json::Str(draft.id.clone())),
        (owned("originCollectionId"), opt_str_json(&draft.origin_collection_id)),
        (owned("originRequestId"), opt_str_json(&draft.origin_request_id)),
        (owned("request"), redact_request(&draft.request)),
        (owned("revision"), int_json(draft.revision)),
        (owned("updatedAt"), int_json(draft.updated_at)),
        (owned("workspaceId"), Json::Str(draft.workspace_id.clone())),
    ];
    proof {
        lemma_entries_view(es@);
        assert(entries_view(es@) =~= seq![
            ("expiresAt"@, int_v(draft.expires_at)),
            ("id"@, JsonV::Str(draft.id@)),
            ("originCollectionId"@, opt_str_v(opt_view(draft.origin_collection_id))),
            ("originRequestId"@, opt_str_v(opt_view(draft.origin_request_id))),
            ("request"@, request_spec(draft.request@, seq![])),
            ("revision"@, int_v(draft.revision)),
            ("updatedAt"@, int_v(draft.updated_at)),
            ("workspaceId"@, JsonV::Str(draft.workspace_id@)),
        ]);
    }
    Json::Object(es)
}

} // verus!
