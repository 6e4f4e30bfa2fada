use vstd::prelude::*;

use crate::commands::activity_view::text_or_empty;
use crate::json::{items_view, json_debug, json_debug_text, json_parse, lemma_items_view, parse_json_text, Json, JsonV};
use crate::text::{ascii_lower, contains_chars, from_chars, lower_chars, opt_view, owned, push_chars, push_str_chars, seq_contains, str_eq, strings_of, to_chars};
use crate::types::{ActivityQuery, McpActivity, McpApproval};

verus! {

/// A stored JSON text read back: the document, or `null` when it does not parse.
pub open spec fn parse_json_spec(text: Seq<char>) -> JsonV {
    match json_parse(text) {
        Some(v) => v,
        None => JsonV::Null,
    }
}

/// Reads a stored JSON text, `null` when it does not parse.
pub fn parse_json(value: &str) -> (r: Json)
    ensures
        r@ == parse_json_spec(value@),
{
    match parse_json_text(value) {
        Some(v) => v,
        None => Json::Null,
    }
}

/// The texts of a JSON array of strings.
pub open spec fn all_strings(items: Seq<JsonV>) -> bool {
    forall|i: int| 0 <= i < items.len() ==> (#[trigger] items[i]) is Str
}

/// A stored list of texts read back: the strings of a JSON array of
/// strings, or no strings when the text is anything else.
pub open spec fn parse_list_spec(text: Seq<char>) -> Seq<Seq<char>> {
    match json_parse(text) {
        Some(JsonV::Array(items)) => if all_strings(items) {
            items.map_values(|v: JsonV| v->Str_0)
        } else {
            seq![]
        },
        _ => seq![],
    }
}

/// Reads a stored list of texts (a JSON array of strings), empty otherwise.
pub fn parse_list(value: &str) -> (r: Vec<String>)
    ensures
        strings_of(r@) == parse_list_spec(value@),
{
    match parse_json_text(value) {
        Some(Json::Array(items)) => {
            proof {
                lemma_items_view(items@);
            }
            let ghost iv = items_view(items@);
            let mut out: Vec<String> = Vec::new();
            let mut i: usize = 0;
            while i < items.len()
                invariant
                    i <= items.len(),
                    iv == items_view(items@),
                    json_parse(value@) == Some(JsonV::Array(iv)),
                    iv.len() == items.len(),
                    forall|m: int| 0 <= m < items.len() ==> #[trigger] iv[m] == crate::json::json_view(items@[m]),
                    forall|m: int| 0 <= m < i ==> (#[trigger] iv[m]) is Str,
                    strings_of(out@) == iv.take(i as int).map_values(|v: JsonV| v->Str_0),
                decreases items.len() - i,
            {
                match &items[i] {
                    Json::Str(s) => {
                        let ghost before = out@;
                        out.push(s.clone());
                        proof {
                            assert(strings_of(out@) == strings_of(before).push(s@));
                            assert(iv.take(i + 1).map_values(|v: JsonV| v->Str_0) =~= iv.take(i as int).map_values(|v: JsonV| v->Str_0).push(iv[i as int]->Str_0));
                        }
                    },
                    _ => {
                        assert(!all_strings(iv));
                        let none: Vec<String> = Vec::new();
                        assert(strings_of(none@) =~= seq![]);
                        return none;
                    },
                }
                i += 1;
            }
            assert(iv.take(items.len() as int) == iv);
            out
        },
        _ => {
            let none: Vec<String> = Vec::new();
            assert(strings_of(none@) =~= seq![]);
            none
        },
    }
}

/// The text that the activity search looks in: the client, tool, status,
/// decision and error detail, then the `Debug` texts of the summaries.
pub open spec fn haystack(r: McpActivity) -> Seq<char> {
    r.client_name@ + " "@ + r.tool_name@ + " "@ + r.status@ + " "@ + text_or_empty(r.approval_decision) + " "@
        + text_or_empty(r.error_detail) + " "@ + json_debug(r.input_summary@) + " "@ + json_debug(r.output_summary@)
}

/// An optional filter on a text field.
pub open spec fn text_filter(filter: Option<String>, value: Seq<char>) -> bool {
    match filter {
        Some(f) => value == f@,
        None => true,
    }
}

/// An optional filter on an optional text field.
pub open spec fn opt_text_filter(filter: Option<String>, value: Option<String>) -> bool {
    match filter {
        Some(f) => opt_view(value) == Some(f@),
        None => true,
    }
}

/// The lowered search text of a query.
pub open spec fn search_text(q: ActivityQuery) -> Seq<char> {
    ascii_lower(text_or_empty(q.search))
}

/// A record passes every filter of the query, and its lowered haystack
/// contains the lowered search text.
pub open spec fn activity_matches(r: McpActivity, q: ActivityQuery) -> bool {
    &&& text_filter(q.client_id, r.client_id@)
    &&& text_filter(q.tool_name, r.tool_name@)
    &&& opt_text_filter(q.workspace_id, r.workspace_id)
    &&& text_filter(q.status, r.status@)
    &&& opt_text_filter(q.approval_decision, r.approval_decision)
    &&& text_filter(q.session_id, r.session_id@)
    &&& (q.started_after matches Some(a) ==> r.started_at >= a)
    &&& (q.started_before matches Some(b) ==> r.started_at <= b)
    &&& (search_text(q).len() == 0 || seq_contains(ascii_lower(haystack(r)), search_text(q)))
}

/// The records that match, in order.
pub open spec fn matching_records(rs: Seq<McpActivity>, q: ActivityQuery) -> Seq<McpActivity>
    decreases rs.len(),
{
    if rs.len() == 0 {
        seq![]
    } else if activity_matches(rs.last(), q) {
        matching_records(rs.drop_last(), q).push(rs.last())
    } else {
        matching_records(rs.drop_last(), q)
    }
}

/// The page size of a query: its limit (500 by default) clamped to 1..=2000.
pub open spec fn query_limit(q: ActivityQuery) -> int {
    let l = match q.limit {
        Some(l) => l as int,
        None => 500,
    };
    if l < 1 { 1 } else if l > 2000 { 2000 } else { l }
}

pub open spec fn query_offset(q: ActivityQuery) -> int {
    match q.offset {
        Some(o) => o as int,
        None => 0,
    }
}

/// What `list` keeps of the records it read: the matching ones, skipping
/// the offset and taking at most the limit.
pub open spec fn activity_page(rs: Seq<McpActivity>, q: ActivityQuery) -> Seq<McpActivity> {
    let m = matching_records(rs, q);
    let start = if query_offset(q) < m.len() { query_offset(q) } else { m.len() as int };
    let end = if query_offset(q) + query_limit(q) < m.len() { query_offset(q) + query_limit(q) } else { m.len() as int };
    m.subrange(start, end)
}

fn text_filter_exec(filter: &Option<String>, value: &String) -> (r: bool)
    ensures
        r == text_filter(*filter, value@),
{
    match filter {
        Some(f) => str_eq(value.as_str(), f.as_str()),
        None => true,
    }
}

fn opt_text_filter_exec(filter: &Option<String>, value: &Option<String>) -> (r: bool)
    ensures
        r == opt_text_filter(*filter, *value),
{
    match (filter, value) {
        (Some(f), Some(v)) => str_eq(v.as_str(), f.as_str()),
        (Some(_), None) => false,
        (None, _) => true,
    }
}

fn haystack_exec(r: &McpActivity) -> (out: Vec<char>)
    ensures
        out@ == haystack(*r),
{
    proof {
        reveal_strlit(" ");
    }
    let mut h = to_chars(r.client_name.as_str());
    h.push(' ');
    push_str_chars(&mut h, r.tool_name.as_str());
    h.push(' ');
    push_str_chars(&mut h, r.status.as_str());
    h.push(' ');
    match &r.approval_decision {
        Some(d) => push_str_chars(&mut h, d.as_str()),
        None => {},
    }
    h.push(' ');
    match &r.error_detail {
        Some(d) => push_str_chars(&mut h, d.as_str()),
        None => {},
    }
    h.push(' ');
    let input = json_debug_text(&r.input_summary);
    push_str_chars(&mut h, input.as_str());
    h.push(' ');
    let output = json_debug_text(&r.output_summary);
    push_str_chars(&mut h, output.as_str());
    assert(" "@ == seq![' ']);
    assert(h@ =~= haystack(*r));
    h
}

fn activity_matches_exec(r: &McpActivity, q: &ActivityQuery, search: &Vec<char>) -> (b: bool)
    requires
        search@ == search_text(*q),
    ensures
        b == activity_matches(*r, *q),
{
    let after = match q.started_after {
        Some(a) => r.started_at >= a,
        None => true,
    };
    let before = match q.started_before {
        Some(b) => r.started_at <= b,
        None => true,
    };
    if !(text_filter_exec(&q.client_id, &r.client_id) && text_filter_exec(&q.tool_name, &r.tool_name)
        && opt_text_filter_exec(&q.workspace_id, &r.workspace_id) && text_filter_exec(&q.status, &r.status)
        && opt_text_filter_exec(&q.approval_decision, &r.approval_decision)
        && text_filter_exec(&q.session_id, &r.session_id) && after && before) {
        return false;
    }
    if search.len() == 0 {
        return true;
    }
    let h = haystack_exec(r);
    let lowered = lower_chars(h.as_slice());
    contains_chars(lowered.as_slice(), search.as_slice())
}

/// Filters the activity records by the query and returns the requested page.
pub fn filter_activity(records: Vec<McpActivity>, query: &ActivityQuery) -> (r: Vec<McpActivity>)
    ensures
        r@ == activity_page(records@, *query),
{
    let ghost orig = records@;
    let search_raw = match &query.search {
        Some(s) => to_chars(s.as_str()),
        None => Vec::new(),
    };
    let search = lower_chars(search_raw.as_slice());
    let limit: usize = match query.limit {
        Some(l) => if l < 1 { 1 } else if l > 2000 { 2000 } else { l },
        None => 500,
    };
    let offset: usize = match query.offset {
        Some(o) => o,
        None => 0,
    };
    let n = records.len();
    let mut rest = records;
    let mut reversed: Vec<McpActivity> = Vec::new();
    while rest.len() > 0
        invariant
            rest.len() + reversed.len() == n,
            orig.len() == n,
            rest@ == orig.take(rest.len() as int),
            forall|k: int| 0 <= k < reversed.len() ==> #[trigger] reversed@[k] == orig[n - 1 - k],
        decreases rest.len(),
    {
        let ghost before_rest = rest@;
        let ghost before_rev = reversed@;
        let record = rest.pop().unwrap();
        proof {
            assert(rest@ == before_rest.drop_last());
            assert(orig.take(rest.len() as int) == orig.take(before_rest.len() as int).drop_last());
        }
        reversed.push(record);
        proof {
            assert forall|k: int| 0 <= k < reversed.len() implies #[trigger] reversed@[k] == orig[n - 1 - k] by {
                if k < before_rev.len() {
                    assert(reversed@[k] == before_rev[k]);
                }
            }
        }
    }
    let mut out: Vec<McpActivity> = Vec::new();
    let mut matched: usize = 0;
    let mut i: usize = 0;
    while reversed.len() > 0
        invariant
            reversed.len() + i == n,
            orig.len() == n,
            search@ == search_text(*query),
            limit as int == query_limit(*query),
            offset as int == query_offset(*query),
            forall|k: int| 0 <= k < reversed.len() ==> #[trigger] reversed@[k] == orig[n - 1 - k],
            matched <= i,
            matched as int == matching_records(orig.take(i as int), *query).len(),
            out@ == matching_records(orig.take(i as int), *query).subrange(
                if offset < matched { offset as int } else { matched as int },
                if offset + limit < matched { offset + limit } else { matched as int },
            ),
        decreases reversed.len(),
    {
        let ghost before_rev = reversed@;
        let record = reversed.pop().unwrap();
        assert(record == orig[i as int]);
        assert(orig.take(i + 1).drop_last() == orig.take(i as int));
        assert(orig.take(i + 1).last() == orig[i as int]);
        if activity_matches_exec(&record, query, &search) {
            if matched >= offset && matched - offset < limit {
                out.push(record);
            }
            matched += 1;
        }
        i += 1;
        proof {
            assert forall|k: int| 0 <= k < reversed.len() implies #[trigger] reversed@[k] == orig[n - 1 - k] by {
                assert(reversed@[k] == before_rev[k]);
            }
        }
    }
    assert(orig.take(n as int) == orig);
    out
}

/// Only the known decisions may be recorded.
pub fn valid_decision(decision: &str) -> (r: Result<(), String>)
    ensures
        r is Ok <==> crate::commands::is_decision(decision@),
        r matches Err(e) ==> e@ == "Invalid approval decision"@,
{
    if str_eq(decision, "allow_once") || str_eq(decision, "allow_session") || str_eq(decision, "deny") {
        Ok(())
    } else {
        Err(owned("Invalid approval decision"))
    }
}

/// The oldest start time that the retention keeps: `days` (at least 1)
/// before `now`.
pub open spec fn retention_cutoff_spec(now: i64, days: i64) -> int {
    now - (if days < 1 { 1 } else { days as int }) * 86400000
}

/// The retention cutoff for the activity log.
pub fn retention_cutoff(now: i64, days: i64) -> (r: i64)
    requires
        (if days < 1 { 1 } else { days as int }) * 86400000 <= i64::MAX,
        i64::MIN <= retention_cutoff_spec(now, days),
    ensures
        r as int == retention_cutoff_spec(now, days),
{
    let d: i64 = if days < 1 { 1 } else { days };
    now - d * 86400000
}

/// The number of rows the retention keeps: at least 100.
pub fn retention_rows(max_rows: i64) -> (r: i64)
    ensures
        r == if max_rows < 100 { 100 } else { max_rows },
{
    if max_rows < 100 { 100 } else { max_rows }
}

/// The approvals of a workspace (all of them without one), in order.
pub open spec fn pending_filter(rs: Seq<McpApproval>, workspace_id: Option<Seq<char>>) -> Seq<McpApproval>
    decreases rs.len(),
{
    if rs.len() == 0 {
        seq![]
    } else if crate::commands::pending_in(rs.last(), workspace_id) {
        pending_filter(rs.drop_last(), workspace_id).push(rs.last())
    } else {
        pending_filter(rs.drop_last(), workspace_id)
    }
}

/// `list_pending`'s workspace filter.
pub fn pending_for_workspace(records: Vec<McpApproval>, workspace_id: Option<&str>) -> (r: Vec<McpApproval>)
    ensures
        r@ == pending_filter(records@, crate::text::opt_ref_view(workspace_id)),
{
    let ghost orig = records@;
    let ghost w = crate::text::opt_ref_view(workspace_id);
    let n = records.len();
    let mut rest = records;
    let mut reversed: Vec<McpApproval> = Vec::new();
    while rest.len() > 0
        invariant
            rest.len() + reversed.len() == n,
            orig.len() == n,
            rest@ == orig.take(rest.len() as int),
            forall|k: int| 0 <= k < reversed.len() ==> #[trigger] reversed@[k] == orig[n - 1 - k],
        decreases rest.len(),
    {
        let ghost before_rest = rest@;
        let ghost before_rev = reversed@;
        let a = rest.pop().unwrap();
        proof {
            assert(rest@ == before_rest.drop_last());
            assert(orig.take(rest.len() as int) == orig.take(before_rest.len() as int).drop_last());
        }
        reversed.push(a);
        proof {
            assert forall|k: int| 0 <= k < reversed.len() implies #[trigger] reversed@[k] == orig[n - 1 - k] by {
                if k < before_rev.len() {
                    assert(reversed@[k] == before_rev[k]);
                }
            }
        }
    }
    let mut out: Vec<McpApproval> = Vec::new();
    let mut i: usize = 0;
    while reversed.len() > 0
        invariant
            reversed.len() + i == n,
            orig.len() == n,
            w == crate::text::opt_ref_view(workspace_id),
            forall|k: int| 0 <= k < reversed.len() ==> #[trigger] reversed@[k] == orig[n - 1 - k],
            out@ == pending_filter(orig.take(i as int), w),
        decreases reversed.len(),
    {
        let ghost before_rev = reversed@;
        let a = reversed.pop().unwrap();
        assert(a == orig[i as int]);
        assert(orig.take(i + 1).drop_last() == orig.take(i as int));
        assert(orig.take(i + 1).last() == orig[i as int]);
        let keep = match (workspace_id, &a.workspace_id) {
            (None, _) => true,
            (Some(x), Some(y)) => str_eq(y.as_str(), x),
            (Some(_), None) => false,
        };
        if keep {
            out.push(a);
        }
        i += 1;
        proof {
            assert forall|k: int| 0 <= k < reversed.len() implies #[trigger] reversed@[k] == orig[n - 1 - k] by {
                assert(reversed@[k] == before_rev[k]);
            }
        }
    }
    assert(orig.take(n as int) == orig);
    out
}

} // verus!
