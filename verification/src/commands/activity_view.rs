use vstd::prelude::*;

use crate::json::JsonV;
use crate::redaction::{activity_spec, activity_summary, truncate, truncate_spec};
use crate::text::{char_vecs_of, from_chars, i64_text, join_chars, join_sep, opt_view, push_chars, replace_all, replace_chars, signed_decimal, strings_of, to_chars};
use crate::types::{McpActivity, McpSafetySettings};

verus! {

/// A CSV cell: the text in double quotes, with its double quotes doubled.
pub open spec fn csv_cell_spec(v: Seq<char>) -> Seq<char> {
    seq!['"'] + replace_all(v, seq!['"'], seq!['"', '"']) + seq!['"']
}

/// Quotes a value for CSV.
pub fn csv_cell(value: &str) -> (r: Vec<char>)
    ensures
        r@ == csv_cell_spec(value@),
{
    let cs = to_chars(value);
    let quote = vec!['"'];
    let doubled = vec!['"', '"'];
    assert(quote@ == seq!['"']);
    assert(doubled@ == seq!['"', '"']);
    let inner = replace_chars(cs.as_slice(), quote.as_slice(), doubled.as_slice());
    let mut out: Vec<char> = Vec::new();
    out.push('"');
    push_chars(&mut out, inner.as_slice());
    out.push('"');
    out
}

/// An optional text, or the empty text.
pub open spec fn text_or_empty(o: Option<String>) -> Seq<char> {
    match o {
        Some(s) => s@,
        None => seq![],
    }
}

/// The columns of one activity row.
pub open spec fn activity_cells(r: McpActivity) -> Seq<Seq<char>> {
    seq![
        signed_decimal(r.started_at as int),
        r.client_name@,
        r.session_id@,
        r.tool_name@,
        text_or_empty(r.workspace_id),
        text_or_empty(r.collection_id),
        text_or_empty(r.request_id),
        match r.duration_ms {
            Some(d) => signed_decimal(d as int),
            None => seq![],
        },
        r.status@,
        text_or_empty(r.approval_decision),
        text_or_empty(r.error_code),
        text_or_empty(r.error_detail),
    ]
}

/// One CSV line: the quoted columns separated by commas.
pub open spec fn activity_line(r: McpActivity) -> Seq<char> {
    join_sep(activity_cells(r).map_values(|c: Seq<char>| csv_cell_spec(c)), seq![','])
}

/// The header of the CSV export.
pub open spec fn csv_header() -> Seq<char> {
    "time,client,session,tool,workspace,collection,request,duration_ms,status,approval,error_code,error_detail"@
}

/// The CSV export: the header, then one line per record, separated by newlines.
pub open spec fn activity_csv_spec(records: Seq<McpActivity>) -> Seq<char> {
    join_sep(seq![csv_header()] + records.map_values(|r: McpActivity| activity_line(r)), seq!['\n'])
}

fn opt_text(o: &Option<String>) -> (r: String)
    ensures
        r@ == text_or_empty(*o),
{
    match o {
        Some(s) => s.clone(),
        None => String::new(),
    }
}

fn activity_line_exec(r: &McpActivity) -> (out: Vec<char>)
    ensures
        out@ == activity_line(*r),
{
    let duration = match r.duration_ms {
        Some(d) => i64_text(d),
        None => String::new(),
    };
    let columns: Vec<String> = vec![
        i64_text(r.started_at),
        r.client_name.clone(),
        r.session_id.clone(),
        r.tool_name.clone(),
        opt_text(&r.workspace_id),
        opt_text(&r.collection_id),
        opt_text(&r.request_id),
        duration,
        r.status.clone(),
        opt_text(&r.approval_decision),
        opt_text(&r.error_code),
        opt_text(&r.error_detail),
    ];
    assert(strings_of(columns@) =~= activity_cells(*r));
    let mut cells: Vec<Vec<char>> = Vec::new();
    let mut i: usize = 0;
    while i < columns.len()
        invariant
            i <= columns.len(),
            strings_of(columns@) == activity_cells(*r),
            char_vecs_of(cells@) == activity_cells(*r).take(i as int).map_values(|c: Seq<char>| csv_cell_spec(c)),
        decreases columns.len() - i,
    {
        let cell = csv_cell(columns[i].as_str());
        let ghost before = cells@;
        cells.push(cell);
        proof {
            assert(strings_of(columns@)[i as int] == columns@[i as int]@);
            assert(char_vecs_of(cells@) == char_vecs_of(before).push(cell@));
            assert(activity_cells(*r).take(i + 1).map_values(|c: Seq<char>| csv_cell_spec(c)) =~= activity_cells(*r).take(i as int).map_values(|c: Seq<char>| csv_cell_spec(c)).push(csv_cell_spec(activity_cells(*r)[i as int])));
        }
        i += 1;
    }
    assert(activity_cells(*r).take(12) == activity_cells(*r));
    proof {
        reveal_strlit(",");
        assert(","@ == seq![',']);
    }
    join_chars(&cells, ",")
}

/// The activity records as CSV, one quoted line per record after a header.
pub fn activity_csv(records: &[McpActivity]) -> (r: String)
    ensures
        r@ == activity_csv_spec(records@),
{
    proof {
        reveal_strlit("time,client,session,tool,workspace,collection,request,duration_ms,status,approval,error_code,error_detail");
        reveal_strlit(",");
        reveal_strlit("\n");
    }
    let mut lines: Vec<Vec<char>> = Vec::new();
    lines.push(to_chars("time,client,session,tool,workspace,collection,request,duration_ms,status,approval,error_code,error_detail"));
    let ghost all = seq![csv_header()] + records@.map_values(|r: McpActivity| activity_line(r));
    let mut i: usize = 0;
    while i < records.len()
        invariant
            i <= records.len(),
            all == seq![csv_header()] + records@.map_values(|r: McpActivity| activity_line(r)),
            char_vecs_of(lines@) == all.take(i + 1),
        decreases records.len() - i,
    {
        let line = activity_line_exec(&records[i]);
        let ghost before = lines@;
        lines.push(line);
        proof {
            assert(char_vecs_of(lines@) == char_vecs_of(before).push(line@));
            assert(all.take(i + 2) == all.take(i + 1).push(all[i + 1]));
        }
        i += 1;
    }
    assert(all.take(records.len() + 1) == all);
    assert("\n"@ == seq!['\n']);
    let joined = join_chars(&lines, "\n");
    from_chars(joined.as_slice())
}

/// The record with its summaries redacted for display and its error detail
/// cut to 8 KiB; every other field is kept.
pub open spec fn redacted_record(r: McpActivity, new: McpActivity, patterns: Seq<Seq<char>>, previews: bool) -> bool {
    &&& new.input_summary@ == activity_spec(r.input_summary@, patterns, previews)
    &&& new.output_summary@ == activity_spec(r.output_summary@, patterns, previews)
    &&& opt_view(new.error_detail) == match r.error_detail {
        Some(d) => Some(truncate_spec(d@, 8192).0),
        None => None,
    }
    &&& new.id == r.id && new.session_id == r.session_id && new.client_id == r.client_id
    &&& new.client_name == r.client_name && new.tool_name == r.tool_name
    &&& new.workspace_id == r.workspace_id && new.collection_id == r.collection_id
    &&& new.request_id == r.request_id && new.draft_id == r.draft_id && new.status == r.status
    &&& new.policy_reasons == r.policy_reasons && new.error_code == r.error_code
    &&& new.approval_id == r.approval_id && new.approval_decision == r.approval_decision
    &&& new.approval_requested_at == r.approval_requested_at && new.approval_decided_at == r.approval_decided_at
    &&& new.started_at == r.started_at && new.completed_at == r.completed_at && new.duration_ms == r.duration_ms
}

/// Redacts activity records for display or export.
pub fn redact_activity(records: Vec<McpActivity>, settings: &McpSafetySettings) -> (r: Vec<McpActivity>)
    ensures
        r.len() == records.len(),
        forall|i: int| 0 <= i < r.len() ==> redacted_record(#[trigger] records@[i], r@[i], strings_of(settings.sensitive_key_patterns@), settings.store_body_previews),
{
    let ghost orig = records@;
    let n = records.len();
    let mut rest = records;
    let mut reversed: Vec<McpActivity> = Vec::new();
    while rest.len() > 0
        invariant
            rest.len() + reversed.len() == n,
            orig.len() == n,
            rest@ == orig.take(rest.len() as int),
            forall|k: int| 0 <= k < reversed.len() ==> redacted_record(#[trigger] orig[n - 1 - k], reversed@[k], strings_of(settings.sensitive_key_patterns@), settings.store_body_previews),
        decreases rest.len(),
    {
        let ghost before_rest = rest@;
        let ghost before_rev = reversed@;
        let mut record = rest.pop().unwrap();
        proof {
            assert(rest@ == before_rest.drop_last());
            assert(record == before_rest.last());
            assert(orig.take(rest.len() as int) == orig.take(before_rest.len() as int).drop_last());
            assert(record == orig[n - 1 - before_rev.len()]);
        }
        record.input_summary = activity_summary(&record.input_summary, settings.sensitive_key_patterns.as_slice(), settings.store_body_previews);
        record.output_summary = activity_summary(&record.output_summary, settings.sensitive_key_patterns.as_slice(), settings.store_body_previews);
        record.error_detail = match &record.error_detail {
            Some(d) => Some(truncate(d.as_str(), 8192).0),
            None => None,
        };
        reversed.push(record);
        proof {
            assert forall|k: int| 0 <= k < reversed.len() implies redacted_record(#[trigger] orig[n - 1 - k], reversed@[k], strings_of(settings.sensitive_key_patterns@), settings.store_body_previews) by {
                if k < before_rev.len() {
                    assert(reversed@[k] == before_rev[k]);
                }
            }
        }
    }
    let mut out: Vec<McpActivity> = Vec::new();
    while reversed.len() > 0
        invariant
            reversed.len() + out.len() == n,
            orig.len() == n,
            forall|k: int| 0 <= k < reversed.len() ==> redacted_record(#[trigger] orig[n - 1 - k], reversed@[k], strings_of(settings.sensitive_key_patterns@), settings.store_body_previews),
            forall|k: int| 0 <= k < out.len() ==> redacted_record(#[trigger] orig[k], out@[k], strings_of(settings.sensitive_key_patterns@), settings.store_body_previews),
        decreases reversed.len(),
    {
        let ghost before_rev = reversed@;
        let ghost before_out = out@;
        let record = reversed.pop().unwrap();
        assert(record == before_rev.last());
        assert(redacted_record(orig[n - 1 - (before_rev.len() - 1)], record, strings_of(settings.sensitive_key_patterns@), settings.store_body_previews));
        out.push(record);
        proof {
            assert forall|k: int| 0 <= k < out.len() implies redacted_record(#[trigger] orig[k], out@[k], strings_of(settings.sensitive_key_patterns@), settings.store_body_previews) by {
                if k < before_out.len() {
                    assert(out@[k] == before_out[k]);
                }
            }
            assert forall|k: int| 0 <= k < reversed.len() implies redacted_record(#[trigger] orig[n - 1 - k], reversed@[k], strings_of(settings.sensitive_key_patterns@), settings.store_body_previews) by {
                assert(reversed@[k] == before_rev[k]);
            }
        }
    }
    out
}

} // verus!
