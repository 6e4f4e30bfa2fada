use vstd::prelude::*;
use vstd::string::*;

pub mod approval;
pub mod body_normalization;
pub mod drafts;
pub mod execute;
pub mod flow;
pub mod path_templates;
pub mod read;
pub mod request_normalization;
pub mod save;
pub mod structure;

use crate::json::{field, field_str, json_view, items_view, lemma_items_view, parse_json_text, json_parse, Json, JsonNumber, JsonV, NumberV};
use crate::redaction::{limit_output, limit_spec, redact_value_spec, redact_value_with_patterns, scrub, scrub_spec, truncate, truncate_spec, MAX_TOOL_OUTPUT_BYTES};
use crate::text::{ascii_lower, chars_eq_str, from_chars, is_ws, join_sep, join_strings, lower_chars, owned, push_chars, str_eq, strings_of, to_chars, trim_chars, trim_spec, trim_start_spec};

verus! {

/// A failed tool call: a machine-readable code, a message, and the status
/// that the activity log records for it.
#[derive(Debug)]
pub struct ToolError {
    pub code: String,
    pub message: String,
    pub status: &'static str,
}

/// The activity status of an error code: `denied` for refusals, `cancelled`
/// for a cancellation, `failed` for anything else.
pub open spec fn status_of(code: Seq<char>) -> Seq<char> {
    if code == "ACCESS_DENIED"@ || code == "APPROVAL_DENIED"@ || code == "APPROVAL_TIMEOUT"@ {
        "denied"@
    } else if code == "CANCELLED"@ {
        "cancelled"@
    } else {
        "failed"@
    }
}

impl ToolError {
    /// An error with the given code and message; its status follows from the code.
    pub fn new(code: &str, message: &str) -> (r: ToolError)
        ensures
            r.code@ == code@,
            r.message@ == message@,
            r.status@ == status_of(code@),
    {
        let status: &'static str = if str_eq(code, "ACCESS_DENIED") || str_eq(code, "APPROVAL_DENIED") || str_eq(code, "APPROVAL_TIMEOUT") {
            "denied"
        } else if str_eq(code, "CANCELLED") {
            "cancelled"
        } else {
            "failed"
        };
        proof {
            reveal_strlit("denied");
            reveal_strlit("cancelled");
            reveal_strlit("failed");
        }
        ToolError { code: owned(code), message: owned(message), status }
    }
}

/// An error carries the code and message, with the status that follows from the code.
pub open spec fn is_tool_error(e: ToolError, code: Seq<char>, message: Seq<char>) -> bool {
    &&& e.code@ == code
    &&& e.message@ == message
    &&& e.status@ == status_of(code)
}

/// An `INVALID_INPUT` error.
pub fn invalid_input(message: &str) -> (r: ToolError)
    ensures
        is_tool_error(r, "INVALID_INPUT"@, message@),
{
    ToolError::new("INVALID_INPUT", message)
}

/// An `ACCESS_DENIED` error whose message lists the reasons, separated by `, `.
pub fn access_denied(reasons: &Vec<String>) -> (r: ToolError)
    ensures
        is_tool_error(r, "ACCESS_DENIED"@, join_sep(strings_of(reasons@), ", "@)),
{
    let message = join_strings(reasons, ", ");
    ToolError::new("ACCESS_DENIED", message.as_str())
}

/// The outcome of a policy decision for a tool: success when the call is
/// allowed, otherwise an `ACCESS_DENIED` error listing the reasons.
pub fn authorization(allowed: bool, reasons: &Vec<String>) -> (r: Result<(), ToolError>)
    ensures
        allowed ==> r is Ok,
        !allowed ==> (match r {
            Err(e) => is_tool_error(e, "ACCESS_DENIED"@, join_sep(strings_of(reasons@), ", "@)),
            Ok(_) => false,
        }),
{
    if allowed {
        Ok(())
    } else {
        Err(access_denied(reasons))
    }
}

/// An internal error.
pub fn internal(error: &str) -> (r: ToolError)
    ensures
        r.code@ == "INTERNAL_ERROR"@,
        r.message@ == error@,
        r.status@ == "failed"@,
{
    proof {
        reveal_strlit("INTERNAL_ERROR");
        reveal_strlit("ACCESS_DENIED");
        reveal_strlit("APPROVAL_DENIED");
        reveal_strlit("APPROVAL_TIMEOUT");
        reveal_strlit("CANCELLED");
        assert("INTERNAL_ERROR"@.len() == 14);
        assert("INTERNAL_ERROR"@ != "ACCESS_DENIED"@);
        assert("INTERNAL_ERROR"@ != "APPROVAL_DENIED"@);
        assert("INTERNAL_ERROR"@ != "APPROVAL_TIMEOUT"@);
        assert("INTERNAL_ERROR"@ != "CANCELLED"@);
    }
    ToolError::new("INTERNAL_ERROR", error)
}

/// The text of an argument, when it is a non-empty string.
pub open spec fn text_spec(v: JsonV, key: Seq<char>) -> Option<Seq<char>> {
    match field_str(v, key) {
        Some(s) => if s.len() > 0 { Some(s) } else { None },
        None => None,
    }
}

/// The text of argument `key`, when it is a non-empty string.
pub fn text<'a>(value: &'a Json, key: &str) -> (r: Option<&'a str>)
    ensures
        match r {
            Some(s) => text_spec(value@, key@) == Some(s@),
            None => text_spec(value@, key@) is None,
        },
{
    match value.get_str(key) {
        Some(s) => if s.as_str().is_empty() { None } else { Some(s.as_str()) },
        None => None,
    }
}

/// The value of a sequence of decimal digits.
pub open spec fn digits_value(d: Seq<char>) -> int
    decreases d.len(),
{
    if d.len() == 0 {
        0
    } else {
        digits_value(d.drop_last()) * 10 + (d.last() as int - '0' as int)
    }
}

pub open spec fn is_digit(c: char) -> bool {
    '0' <= c && c <= '9'
}

/// The digits of a number text: without its leading sign, if any.
pub open spec fn unsigned_part(s: Seq<char>) -> Seq<char> {
    if s.len() > 0 && (s[0] == '-' || s[0] == '+') {
        s.drop_first()
    } else {
        s
    }
}

pub open spec fn all_digits(d: Seq<char>) -> bool {
    forall|i: int| 0 <= i < d.len() ==> is_digit(#[trigger] d[i])
}

/// `str::parse::<i64>`: an optional `+` or `-`, then one or more decimal
/// digits, whose value fits in an `i64`.
pub open spec fn parse_i64_spec(s: Seq<char>) -> Option<i64> {
    let d = unsigned_part(s);
    if d.len() == 0 || !all_digits(d) {
        None
    } else {
        let v = if s[0] == '-' { -digits_value(d) } else { digits_value(d) };
        if i64::MIN <= v && v <= i64::MAX {
            Some(v as i64)
        } else {
            None
        }
    }
}

proof fn lemma_digits_value_nonneg(d: Seq<char>)
    requires
        forall|i: int| 0 <= i < d.len() ==> is_digit(#[trigger] d[i]),
    ensures
        digits_value(d) >= 0,
    decreases d.len(),
{
    if d.len() > 0 {
        lemma_digits_value_nonneg(d.drop_last());
    }
}

proof fn lemma_digits_value_grows(d: Seq<char>, i: int)
    requires
        0 <= i <= d.len(),
        forall|k: int| 0 <= k < d.len() ==> is_digit(#[trigger] d[k]),
    ensures
        digits_value(d) >= digits_value(d.take(i)),
    decreases d.len() - i,
{
    if i < d.len() {
        lemma_digits_value_grows(d, i + 1);
        assert(d.take(i + 1).drop_last() == d.take(i));
        assert(forall|k: int| 0 <= k < i ==> is_digit(#[trigger] d.take(i)[k]));
        lemma_digits_value_nonneg(d.take(i));
    } else {
        assert(d.take(i) == d);
    }
}

/// Parses a decimal `i64` as `str::parse` does.
pub fn parse_i64(s: &str) -> (r: Option<i64>)
    ensures
        r == parse_i64_spec(s@),
{
    let cs = to_chars(s);
    let signed = cs.len() > 0 && (cs[0] == '-' || cs[0] == '+');
    let neg = cs.len() > 0 && cs[0] == '-';
    let start: usize = if signed { 1 } else { 0 };
    let ghost d = unsigned_part(s@);
    if start >= cs.len() {
        return None;
    }
    let mut acc: i128 = 0;
    let mut i: usize = start;
    while i < cs.len()
        invariant
            start <= i <= cs.len(),
            cs@ == s@,
            start == (if signed { 1usize } else { 0usize }),
            d == cs@.skip(start as int),
            d == unsigned_part(s@),
            neg == (s@.len() > 0 && s@[0] == '-'),
            forall|k: int| 0 <= k < i - start ==> is_digit(#[trigger] d[k]),
            acc == digits_value(d.take(i - start)),
            0 <= acc <= 9223372036854775808,
        decreases cs.len() - i,
    {
        let c = cs[i];
        if !('0' <= c && c <= '9') {
            assert(!is_digit(d[i - start]));
            assert(!all_digits(d));
            return None;
        }
        let digit: i128 = (c as u32 - '0' as u32) as i128;
        assert(d.take(i - start + 1).drop_last() == d.take(i - start));
        assert(d.take(i - start + 1).last() == c);
        assert(digit == c as int - '0' as int);
        acc = acc * 10 + digit;
        if acc > 9223372036854775808 {
            proof {
                assert(forall|k: int| 0 <= k < i - start + 1 ==> is_digit(#[trigger] d[k]));
                if all_digits(d) {
                    lemma_digits_value_grows(d, i - start + 1);
                    assert(digits_value(d) > 9223372036854775808);
                }
            }
            return None;
        }
        i += 1;
    }
    assert(d.take(d.len() as int) == d);
    if neg {
        let v: i128 = -acc;
        if v < -9223372036854775808 {
            return None;
        }
        Some(v as i64)
    } else {
        if acc > 9223372036854775807 {
            return None;
        }
        Some(acc as i64)
    }
}

/// What `integer` reads: an integral JSON number that fits in an `i64`,
/// or a string that parses as one.
pub open spec fn integer_spec(v: JsonV, key: Seq<char>) -> Option<i64> {
    match field(v, key) {
        Some(JsonV::Number(NumberV::PosInt(u))) => if u <= i64::MAX { Some(u as i64) } else { None },
        Some(JsonV::Number(NumberV::NegInt(i))) => Some(i),
        Some(JsonV::Str(s)) => parse_i64_spec(s),
        _ => None,
    }
}

/// Argument `key` as an integer, whether given as a number or as a string.
pub fn integer(value: &Json, key: &str) -> (r: Option<i64>)
    ensures
        r == integer_spec(value@, key@),
{
    match value.get(key) {
        Some(Json::Number(JsonNumber::PosInt(u))) => if *u <= 9223372036854775807u64 { Some(*u as i64) } else { None },
        Some(Json::Number(JsonNumber::NegInt(i))) => Some(*i),
        Some(Json::Str(s)) => parse_i64(s.as_str()),
        _ => None,
    }
}

/// What `object_value` reads: an object, or a string holding the JSON text of one.
pub open spec fn object_value_spec(v: JsonV, key: Seq<char>) -> Option<JsonV> {
    match field(v, key) {
        Some(JsonV::Object(es)) => Some(JsonV::Object(es)),
        Some(JsonV::Str(s)) => match json_parse(s) {
            Some(JsonV::Object(es)) => Some(JsonV::Object(es)),
            _ => None,
        },
        _ => None,
    }
}

/// Argument `key` as an object, whether given as one or as its JSON text.
pub fn object_value(value: &Json, key: &str) -> (r: Option<Json>)
    ensures
        match r {
            Some(o) => object_value_spec(value@, key@) == Some(o@),
            None => object_value_spec(value@, key@) is None,
        },
{
    match value.get(key) {
        Some(Json::Object(_)) => Some(value.get(key).unwrap().deep_clone()),
        Some(Json::Str(s)) => match parse_json_text(s.as_str()) {
            Some(Json::Object(es)) => Some(Json::Object(es)),
            _ => None,
        },
        _ => None,
    }
}

/// The message of a missing argument.
pub open spec fn required_message(key: Seq<char>) -> Seq<char> {
    key + " is required"@
}

/// Argument `key`, which must be a non-empty string.
pub fn required<'a>(arguments: &'a Json, key: &str) -> (r: Result<&'a str, ToolError>)
    ensures
        match r {
            Ok(s) => text_spec(arguments@, key@) == Some(s@),
            Err(e) => text_spec(arguments@, key@) is None && is_tool_error(e, "INVALID_INPUT"@, required_message(key@))
                && e.status@ == "failed"@,
        },
{
    match text(arguments, key) {
        Some(s) => {
            assert(text_spec(arguments@, key@) == Some(s@));
            Ok(s)
        },
        None => {
            let mut m = to_chars(key);
            let tail = to_chars(" is required");
            push_chars(&mut m, tail.as_slice());
            let msg = from_chars(m.as_slice());
            proof {
                reveal_strlit("INVALID_INPUT");
                reveal_strlit("ACCESS_DENIED");
                reveal_strlit("APPROVAL_DENIED");
                reveal_strlit("APPROVAL_TIMEOUT");
                reveal_strlit("CANCELLED");
                assert("INVALID_INPUT"@[0] != "ACCESS_DENIED"@[0]);
                assert("INVALID_INPUT"@[0] != "APPROVAL_DENIED"@[0]);
                assert("INVALID_INPUT"@[0] != "APPROVAL_TIMEOUT"@[0]);
                assert("INVALID_INPUT"@[0] != "CANCELLED"@[0]);
            }
            Err(ToolError::new("INVALID_INPUT", msg.as_str()))
        },
    }
}

/// The workspace, collection and request that the arguments name; each is required.
pub fn request_reference(arguments: &Json) -> (r: Result<(&str, &str, &str), ToolError>)
    ensures
        match r {
            Ok((w, c, q)) => text_spec(arguments@, "workspaceId"@) == Some(w@) && text_spec(arguments@, "collectionId"@)
                == Some(c@) && text_spec(arguments@, "requestId"@) == Some(q@),
            Err(e) => e.code@ == "INVALID_INPUT"@ && (
                (text_spec(arguments@, "workspaceId"@) is None && e.message@ == required_message("workspaceId"@))
                || (text_spec(arguments@, "workspaceId"@) is Some && text_spec(arguments@, "collectionId"@) is None
                    && e.message@ == required_message("collectionId"@))
                || (text_spec(arguments@, "workspaceId"@) is Some && text_spec(arguments@, "collectionId"@) is Some
                    && text_spec(arguments@, "requestId"@) is None && e.message@ == required_message("requestId"@))),
        },
{
    let w = required(arguments, "workspaceId")?;
    let c = required(arguments, "collectionId")?;
    let q = required(arguments, "requestId")?;
    Ok((w, c, q))
}

} // verus!

verus! {

/// The offset that `page` uses: the `offset` argument (0 when absent),
/// never below 0.
pub open spec fn page_offset(arguments: JsonV) -> usize {
    let o = match integer_spec(arguments, "offset"@) {
        Some(o) => o,
        None => 0,
    };
    (if o < 0 { 0 } else { o }) as usize
}

/// The limit that `page` uses: the `limit` argument (the default when
/// absent), clamped to 1..=200.
pub open spec fn page_limit(arguments: JsonV, default_limit: usize) -> usize {
    let l = match integer_spec(arguments, "limit"@) {
        Some(l) => l,
        None => default_limit as i64,
    };
    (if l < 1 { 1 } else if l > 200 { 200 } else { l }) as usize
}

/// What `page` returns: the page of `values` under `key`, with the offset,
/// limit, total, and whether more values follow.
pub open spec fn page_spec(key: Seq<char>, values: Seq<JsonV>, arguments: JsonV, default_limit: usize) -> JsonV {
    let n = values.len() as int;
    let o = page_offset(arguments) as int;
    let l = page_limit(arguments, default_limit) as int;
    let start = if o < n { o } else { n };
    let end = if o + l < n { o + l } else { n };
    JsonV::Object(seq![
        (key, JsonV::Array(values.subrange(start, end))),
        ("offset"@, JsonV::Number(NumberV::PosInt(o as u64))),
        ("limit"@, JsonV::Number(NumberV::PosInt(l as u64))),
        ("total"@, JsonV::Number(NumberV::PosInt(n as u64))),
        ("hasMore"@, JsonV::Bool(o + l < n)),
    ])
}

/// One page of `values`, chosen by the `offset` and `limit` arguments.
pub fn page(key: &str, values: Vec<Json>, arguments: &Json, default_limit: usize) -> (r: Json)
    ensures
        r@ == page_spec(key@, items_view(values@), arguments@, default_limit),
{
    proof {
        lemma_items_view(values@);
    }
    let total = values.len();
    let o = match integer(arguments, "offset") {
        Some(o) => o,
        None => 0,
    };
    let offset: usize = (if o < 0 { 0 } else { o }) as usize;
    let l = match integer(arguments, "limit") {
        Some(l) => l,
        None => default_limit as i64,
    };
    let limit: usize = (if l < 1 { 1 } else if l > 200 { 200 } else { l }) as usize;
    let start = if offset < total { offset } else { total };
    let end = if offset < total && limit < total - offset { offset + limit } else { total };
    let has_more = offset < total && limit < total - offset;
    let ghost all = items_view(values@);
    let mut items: Vec<Json> = Vec::new();
    let mut k = start;
    while k < end
        invariant
            start <= k <= end,
            end <= total,
            total == values.len(),
            all == items_view(values@),
            all.len() == values.len(),
            forall|m: int| 0 <= m < values.len() ==> #[trigger] all[m] == json_view(values@[m]),
            items_view(items@) == all.subrange(start as int, k as int),
        decreases end - k,
    {
        let v = values[k].deep_clone();
        let ghost before = items@;
        items.push(v);
        proof {
            crate::json::lemma_items_view_push(before, v);
            assert(items@ == before.push(v));
            assert(all.subrange(start as int, k + 1) == all.subrange(start as int, k as int).push(all[k as int]));
        }
        k += 1;
    }
    let es = vec![
        (owned(key), Json::Array(items)),
        (owned("offset"), Json::Number(JsonNumber::PosInt(offset as u64))),
        (owned("limit"), Json::Number(JsonNumber::PosInt(limit as u64))),
        (owned("total"), Json::Number(JsonNumber::PosInt(total as u64))),
        (owned("hasMore"), Json::Bool(has_more)),
    ];
    proof {
        crate::json::lemma_entries_view(es@);
        assert(crate::json::entries_view(es@) =~= seq![
            (key@, JsonV::Array(all.subrange(start as int, end as int))),
            ("offset"@, JsonV::Number(NumberV::PosInt(offset as u64))),
            ("limit"@, JsonV::Number(NumberV::PosInt(limit as u64))),
            ("total"@, JsonV::Number(NumberV::PosInt(total as u64))),
            ("hasMore"@, JsonV::Bool(has_more)),
        ]);
    }
    Json::Object(es)
}

} // verus!

verus! {

/// The group of tools that handles a call.
#[derive(Clone, Copy, Debug, PartialEq, Eq, Structural)]
pub enum ToolGroup {
    Read,
    Drafts,
    Structure,
    Save,
    Execute,
}

/// The group that handles a tool, when the tool exists.
pub open spec fn group_spec(name: Seq<char>) -> Option<ToolGroup> {
    if name == "tesapi_list_workspaces"@ || name == "tesapi_list_collections"@ || name
        == "tesapi_search_requests"@ || name == "tesapi_get_collection_documentation"@ || name
        == "tesapi_get_request"@ || name == "tesapi_list_environments"@ {
        Some(ToolGroup::Read)
    } else if name == "tesapi_create_request_draft"@ || name == "tesapi_update_request_draft"@
        || name == "tesapi_get_request_draft"@ {
        Some(ToolGroup::Drafts)
    } else if name == "tesapi_create_collection"@ || name == "tesapi_create_folder"@ {
        Some(ToolGroup::Structure)
    } else if name == "tesapi_save_request_draft"@ {
        Some(ToolGroup::Save)
    } else if name == "tesapi_execute_request"@ {
        Some(ToolGroup::Execute)
    } else {
        None
    }
}

/// The group that handles a tool; an unknown tool is `TOOL_NOT_FOUND`.
pub fn tool_group(tool_name: &str) -> (r: Result<ToolGroup, ToolError>)
    ensures
        match group_spec(tool_name@) {
            Some(g) => r == Ok::<ToolGroup, ToolError>(g),
            None => match r {
                Err(e) => is_tool_error(e, "TOOL_NOT_FOUND"@, "Unknown TesAPI tool: "@ + tool_name@),
                Ok(_) => false,
            },
        },
{
    let n = tool_name;
    if str_eq(n, "tesapi_list_workspaces") || str_eq(n, "tesapi_list_collections") || str_eq(n, "tesapi_search_requests")
        || str_eq(n, "tesapi_get_collection_documentation") || str_eq(n, "tesapi_get_request")
        || str_eq(n, "tesapi_list_environments") {
        Ok(ToolGroup::Read)
    } else if str_eq(n, "tesapi_create_request_draft") || str_eq(n, "tesapi_update_request_draft")
        || str_eq(n, "tesapi_get_request_draft") {
        Ok(ToolGroup::Drafts)
    } else if str_eq(n, "tesapi_create_collection") || str_eq(n, "tesapi_create_folder") {
        Ok(ToolGroup::Structure)
    } else if str_eq(n, "tesapi_save_request_draft") {
        Ok(ToolGroup::Save)
    } else if str_eq(n, "tesapi_execute_request") {
        Ok(ToolGroup::Execute)
    } else {
        let mut m = to_chars("Unknown TesAPI tool: ");
        let t = to_chars(tool_name);
        push_chars(&mut m, t.as_slice());
        let message = from_chars(m.as_slice());
        Err(ToolError::new("TOOL_NOT_FOUND", message.as_str()))
    }
}

/// What a tool call returns: its output redacted with the sensitive key
/// patterns, then limited to the largest tool output.
pub fn finish_output(output: &Json, sensitive_patterns: &[String]) -> (r: Json)
    ensures
        r@ == limit_spec(
            redact_value_spec(output@, seq![], strings_of(sensitive_patterns@)),
            MAX_TOOL_OUTPUT_BYTES,
        ),
{
    let none: Vec<String> = Vec::new();
    assert(strings_of(none@) =~= seq![]);
    let redacted = redact_value_with_patterns(output, none.as_slice(), sensitive_patterns);
    limit_output(&redacted, MAX_TOOL_OUTPUT_BYTES)
}

/// The message that the activity log records for a failed call: scrubbed,
/// then cut to 8 KiB.
pub fn failure_message(message: &str) -> (r: String)
    ensures
        r@ == truncate_spec(scrub_spec(message@, seq![]), 8192).0,
{
    let none: Vec<String> = Vec::new();
    assert(strings_of(none@) =~= seq![]);
    let scrubbed = scrub(message, none.as_slice());
    truncate(scrubbed.as_str(), 8 * 1024).0
}

/// The pieces of a text between the separator `c` (`str::split`).
pub open spec fn split_char(s: Seq<char>, c: char) -> Seq<Seq<char>>
    decreases s.len(),
{
    if s.len() == 0 {
        seq![seq![]]
    } else {
        let rest = split_char(s.drop_last(), c);
        if s.last() == c {
            rest.push(seq![])
        } else {
            rest.update(rest.len() - 1, rest.last().push(s.last()))
        }
    }
}

pub proof fn lemma_split_char_len(s: Seq<char>, c: char)
    ensures
        split_char(s, c).len() >= 1,
    decreases s.len(),
{
    if s.len() > 0 {
        lemma_split_char_len(s.drop_last(), c);
    }
}

/// The pieces, trimmed, without the empty ones.
pub open spec fn kept_pieces(pieces: Seq<Seq<char>>) -> Seq<Seq<char>>
    decreases pieces.len(),
{
    if pieces.len() == 0 {
        seq![]
    } else {
        let r = kept_pieces(pieces.drop_last());
        let t = trim_spec(pieces.last());
        if t.len() > 0 {
            r.push(t)
        } else {
            r
        }
    }
}

/// The reasons of an access denial, read back from its message: the
/// comma-separated parts, trimmed, without empty ones.
pub fn denial_reasons_of(message: &str) -> (r: Vec<String>)
    ensures
        strings_of(r@) == kept_pieces(split_char(message@, ',')),
{
    let chars = to_chars(message);
    let mut out: Vec<String> = Vec::new();
    let mut cur: Vec<char> = Vec::new();
    let mut i: usize = 0;
    proof {
        assert(chars@.take(0) =~= seq![]);
        assert(split_char(seq![], ',').drop_last() =~= seq![]);
    }
    while i < chars.len()
        invariant
            i <= chars.len(),
            chars@ == message@,
            split_char(chars@.take(i as int), ',').len() >= 1,
            strings_of(out@) == kept_pieces(split_char(chars@.take(i as int), ',').drop_last()),
            cur@ == split_char(chars@.take(i as int), ',').last(),
        decreases chars.len() - i,
    {
        let ghost prefix = chars@.take(i as int);
        let ghost next = chars@.take(i + 1);
        proof {
            assert(next.drop_last() == prefix);
            assert(next.last() == chars@[i as int]);
            lemma_split_char_len(prefix, ',');
        }
        let c = chars[i];
        if c == ',' {
            let t = trim_chars(cur.as_slice());
            proof {
                assert(split_char(next, ',') == split_char(prefix, ',').push(seq![]));
                assert(split_char(next, ',').drop_last() == split_char(prefix, ','));
                assert(split_char(prefix, ',').drop_last() == split_char(prefix, ',').drop_last());
            }
            if t.len() > 0 {
                let ghost before = out@;
                out.push(from_chars(t.as_slice()));
                proof {
                    assert(strings_of(out@) =~= strings_of(before).push(t@));
                }
            }
            cur = Vec::new();
        } else {
            proof {
                let rest = split_char(prefix, ',');
                assert(split_char(next, ',') == rest.update(rest.len() - 1, rest.last().push(c)));
                assert(split_char(next, ',').drop_last() =~= rest.drop_last());
            }
            cur.push(c);
        }
        i += 1;
    }
    proof {
        assert(chars@.take(chars.len() as int) == chars@);
    }
    let t = trim_chars(cur.as_slice());
    if t.len() > 0 {
        let ghost before = out@;
        out.push(from_chars(t.as_slice()));
        proof {
            assert(strings_of(out@) =~= strings_of(before).push(t@));
        }
    }
    out
}

/// A reason as policies give them: not empty, no comma, and no white space
/// at either end.
pub open spec fn is_reason_text(r: Seq<char>) -> bool {
    &&& r.len() > 0
    &&& !is_ws(r[0])
    &&& !is_ws(r.last())
    &&& !r.contains(',')
}

proof fn lemma_split_push_separator(s: Seq<char>, c: char)
    ensures
        split_char(s.push(c), c) == split_char(s, c).push(seq![]),
{
    assert(s.push(c).drop_last() == s);
}

proof fn lemma_split_append_free(s: Seq<char>, t: Seq<char>, c: char)
    requires
        !t.contains(c),
    ensures
        split_char(s + t, c).len() == split_char(s, c).len(),
        split_char(s + t, c) == split_char(s, c).update(
            split_char(s, c).len() - 1,
            split_char(s, c).last() + t,
        ),
    decreases t.len(),
{
    lemma_split_char_len(s, c);
    let base = split_char(s, c);
    if t.len() == 0 {
        assert(s + t == s);
        assert(base.update(base.len() - 1, base.last() + t) =~= base);
    } else {
        let t1 = t.drop_last();
        let x = t.last();
        assert(!t1.contains(c)) by {
            if t1.contains(c) {
                let k = choose|k: int| 0 <= k < t1.len() && t1[k] == c;
                assert(t[k] == c);
            }
        }
        assert(x != c) by {
            assert(t[t.len() - 1] == x);
        }
        lemma_split_append_free(s, t1, c);
        assert((s + t).drop_last() == s + t1);
        assert((s + t).last() == x);
        let rest = split_char(s + t1, c);
        assert(rest.last() == base.last() + t1);
        assert(split_char(s + t, c) == rest.update(rest.len() - 1, rest.last().push(x)));
        assert((base.last() + t1).push(x) == base.last() + t);
        assert(rest.update(rest.len() - 1, rest.last().push(x)) =~= base.update(base.len() - 1, base.last() + t));
    }
}

proof fn lemma_kept_push(pieces: Seq<Seq<char>>, y: Seq<char>)
    ensures
        kept_pieces(pieces.push(y)) == (if trim_spec(y).len() > 0 {
            kept_pieces(pieces).push(trim_spec(y))
        } else {
            kept_pieces(pieces)
        }),
{
    assert(pieces.push(y).drop_last() == pieces);
}

proof fn lemma_trim_after_space(p: Seq<char>)
    requires
        is_reason_text(p),
    ensures
        trim_spec(seq![' '] + p) == p,
{
    let s = seq![' '] + p;
    assert(s.drop_first() == p);
    assert(is_ws(s[0]));
    assert(trim_start_spec(s) == trim_start_spec(p));
    crate::settings::lemma_trim_fixed(p);
}

/// An access denial's message gives back exactly the reasons it lists, when
/// each reason is non-empty, has no comma and no white space at its ends:
/// the activity log records the reasons the policy gave.
pub proof fn law_denial_reasons_round_trip(reasons: Seq<Seq<char>>)
    requires
        forall|i: int| 0 <= i < reasons.len() ==> is_reason_text(#[trigger] reasons[i]),
    ensures
        kept_pieces(split_char(join_sep(reasons, ", "@), ',')) == reasons,
    decreases reasons.len(),
{
    reveal_strlit(", ");
    assert(", "@ == seq![',', ' ']);
    let none = Seq::<char>::empty();
    let no_pieces = Seq::<Seq<char>>::empty();
    if reasons.len() == 0 {
        assert(split_char(none, ',') == no_pieces.push(none));
        lemma_kept_push(no_pieces, none);
        assert(trim_spec(none).len() == 0);
        assert(reasons =~= no_pieces);
    } else if reasons.len() == 1 {
        let p = reasons[0];
        assert(is_reason_text(p));
        assert(join_sep(reasons, ", "@) == p);
        lemma_split_append_free(none, p, ',');
        assert(none + p == p);
        assert(split_char(none, ',') == no_pieces.push(none));
        assert(split_char(p, ',') =~= no_pieces.push(p));
        lemma_kept_push(no_pieces, p);
        crate::settings::lemma_trim_fixed(p);
        assert(reasons =~= no_pieces.push(p));
    } else {
        let init = reasons.drop_last();
        let p = reasons.last();
        assert(is_reason_text(p)) by {
            assert(reasons[reasons.len() - 1] == p);
        }
        assert forall|i: int| 0 <= i < init.len() implies is_reason_text(#[trigger] init[i]) by {
            assert(init[i] == reasons[i]);
        }
        law_denial_reasons_round_trip(init);
        let j = join_sep(init, ", "@);
        assert(join_sep(reasons, ", "@) == j + ", "@ + p);
        let tail = seq![' '] + p;
        assert(j + ", "@ + p =~= j.push(',') + tail);
        assert(!tail.contains(',')) by {
            if tail.contains(',') {
                let k = choose|k: int| 0 <= k < tail.len() && tail[k] == ',';
                assert(k > 0);
                assert(p[k - 1] == ',');
            }
        }
        lemma_split_push_separator(j, ',');
        lemma_split_append_free(j.push(','), tail, ',');
        let sj = split_char(j, ',');
        assert(split_char(j.push(','), ',').last() == Seq::<char>::empty());
        assert(Seq::<char>::empty() + tail == tail);
        assert(split_char(j.push(','), ',').update(sj.len() as int, tail) =~= sj.push(tail));
        lemma_kept_push(sj, tail);
        lemma_trim_after_space(p);
        assert(reasons =~= init.push(p));
    }
}

} // verus!
