use vstd::prelude::*;

use super::body_normalization;
use crate::json::{field, field_array, field_str, has_field, items_view, json_view, lemma_items_view_push, set_field, with_field, Json, JsonV};
use crate::text::{decimal, decimal_text, push_chars, to_chars, from_chars};

verus! {

/// A text field that is present and not empty.
pub open spec fn nonempty_text(row: JsonV, key: Seq<char>) -> bool {
    field_str(row, key) matches Some(t) && t.len() > 0
}

/// A row has content when it has a key, value or description, is a file
/// row, or has files.
pub open spec fn row_has_content(row: JsonV) -> bool {
    ||| nonempty_text(row, "key"@)
    ||| nonempty_text(row, "value"@)
    ||| nonempty_text(row, "description"@)
    ||| field_str(row, "valueType"@) == Some("file"@)
    ||| (field_array(row, "files"@) matches Some(files) && files.len() > 0)
}

/// `entry(key).or_insert(v)` on an object.
pub open spec fn or_insert(v: JsonV, key: Seq<char>, x: JsonV) -> JsonV {
    if has_field(v, key) { v } else { set_field(v, key, x) }
}

/// The generated id of the row at `index`: `mcp-row-<index + 1>`.
pub open spec fn row_id(index: nat) -> Seq<char> {
    "mcp-row-"@ + decimal(index + 1)
}

/// A row completed with an id, a key, a value and an enabled flag.
pub open spec fn normalize_row(row: JsonV, index: nat) -> JsonV {
    match row {
        JsonV::Object(_) => {
            let r = or_insert(row, "id"@, JsonV::Str(row_id(index)));
            let r = or_insert(r, "key"@, JsonV::Str(seq![]));
            let r = or_insert(r, "value"@, JsonV::Str(seq![]));
            if has_field(r, "enabled"@) { r } else { set_field(r, "enabled"@, JsonV::Bool(row_has_content(r))) }
        },
        _ => row,
    }
}

/// `normalize_rows`: every row of an array is completed; anything else is kept.
pub open spec fn normalize_rows_spec(v: JsonV) -> JsonV {
    match v {
        JsonV::Array(rows) => JsonV::Array(Seq::new(rows.len(), |i: int| normalize_row(rows[i], i as nat))),
        _ => v,
    }
}

/// The body normalized and its form rows completed.
pub open spec fn body_spec(body: JsonV) -> JsonV {
    let b = body_normalization::normalize_spec(body);
    match b {
        JsonV::Object(_) => match field(b, "formData"@) {
            Some(fd) => set_field(b, "formData"@, normalize_rows_spec(fd)),
            None => b,
        },
        _ => b,
    }
}

pub open spec fn rows_field(v: JsonV, key: Seq<char>) -> JsonV {
    match field(v, key) {
        Some(rows) => set_field(v, key, normalize_rows_spec(rows)),
        None => v,
    }
}

/// What `normalize` makes of a request: its `params`, `pathVariables` and
/// `headers` rows completed, its body type inferred and its form rows completed.
pub open spec fn normalize_spec(request: JsonV) -> JsonV {
    match request {
        JsonV::Object(_) => {
            let r = rows_field(rows_field(rows_field(request, "params"@), "pathVariables"@), "headers"@);
            match field(r, "body"@) {
                Some(body) => set_field(r, "body"@, body_spec(body)),
                None => r,
            }
        },
        _ => request,
    }
}

fn or_insert_exec(v: Json, key: &str, x: Json) -> (r: Json)
    ensures
        r@ == or_insert(v@, key@, x@),
{
    if v.get(key).is_some() {
        v
    } else {
        with_field(v, key, x)
    }
}

fn nonempty_text_exec(row: &Json, key: &str) -> (r: bool)
    ensures
        r == nonempty_text(row@, key@),
{
    match row.get_str(key) {
        Some(t) => !t.as_str().is_empty(),
        None => false,
    }
}

fn row_has_content_exec(row: &Json) -> (r: bool)
    ensures
        r == row_has_content(row@),
{
    proof {
        reveal_strlit("file");
    }
    let file_row = match row.get_str("valueType") {
        Some(t) => crate::text::str_eq(t.as_str(), "file"),
        None => false,
    };
    let has_files = match row.get_array("files") {
        Some(files) => {
            proof {
                crate::json::lemma_items_view(files@);
            }
            files.len() > 0
        },
        None => false,
    };
    nonempty_text_exec(row, "key") || nonempty_text_exec(row, "value") || nonempty_text_exec(row, "description")
        || file_row || has_files
}

fn normalize_row_exec(row: &Json, index: usize) -> (r: Json)
    requires
        index < usize::MAX,
    ensures
        r@ == normalize_row(row@, index as nat),
{
    match row {
        Json::Object(_) => {},
        _ => return row.deep_clone(),
    }
    let mut id = to_chars("mcp-row-");
    let n = decimal_text(index + 1);
    let nc = to_chars(n.as_str());
    push_chars(&mut id, nc.as_slice());
    proof {
        reveal_strlit("mcp-row-");
    }
    let r = or_insert_exec(row.deep_clone(), "id", Json::Str(from_chars(id.as_slice())));
    let r = or_insert_exec(r, "key", Json::Str(String::new()));
    let r = or_insert_exec(r, "value", Json::Str(String::new()));
    if r.get("enabled").is_some() {
        r
    } else {
        let content = row_has_content_exec(&r);
        with_field(r, "enabled", Json::Bool(content))
    }
}

/// Completes every row of an array: a generated id, an empty key and value
/// when missing, and an enabled flag that says whether the row has content.
pub fn normalize_rows(value: &Json) -> (r: Json)
    ensures
        r@ == normalize_rows_spec(value@),
{
    match value {
        Json::Array(rows) => {
            proof {
                crate::json::lemma_items_view(rows@);
            }
            let ghost rv = items_view(rows@);
            let mut out: Vec<Json> = Vec::new();
            let mut i: usize = 0;
            while i < rows.len()
                invariant
                    i <= rows.len(),
                    rv == items_view(rows@),
                    rv.len() == rows.len(),
                    forall|m: int| 0 <= m < rows.len() ==> #[trigger] rv[m] == json_view(rows@[m]),
                    items_view(out@) == Seq::new(i as nat, |k: int| normalize_row(rv[k], k as nat)),
                decreases rows.len() - i,
            {
                let g = normalize_row_exec(&rows[i], i);
                let ghost before = out@;
                out.push(g);
                proof {
                    lemma_items_view_push(before, g);
                    assert(out@ == before.push(g));
                    assert(Seq::new((i + 1) as nat, |k: int| normalize_row(rv[k], k as nat)) =~= Seq::new(i as nat, |k: int| normalize_row(rv[k], k as nat)).push(normalize_row(rv[i as int], i as nat)));
                }
                i += 1;
            }
            Json::Array(out)
        },
        _ => value.deep_clone(),
    }
}

fn rows_field_exec(v: Json, key: &str) -> (r: Json)
    ensures
        r@ == rows_field(v@, key@),
{
    let rows = match v.get(key) {
        Some(rows) => normalize_rows(rows),
        None => return v,
    };
    with_field(v, key, rows)
}

/// Completes the rows of a request and infers its body type.
pub fn normalize(request: Json) -> (r: Json)
    ensures
        r@ == normalize_spec(request@),
{
    match request {
        Json::Object(_) => {},
        _ => return request,
    }
    let r = rows_field_exec(request, "params");
    let r = rows_field_exec(r, "pathVariables");
    let r = rows_field_exec(r, "headers");
    let body = match r.get("body") {
        Some(b) => b.deep_clone(),
        None => return r,
    };
    let b = body_normalization::normalize(body);
    let b = match b {
        Json::Object(_) => match b.get("formData") {
            Some(fd) => {
                let rows = normalize_rows(fd);
                with_field(b, "formData", rows)
            },
            None => b,
        },
        _ => b,
    };
    with_field(r, "body", b)
}

} // verus!
