use vstd::prelude::*;

use crate::json::{
    entries_view, entry_value, field, field_array, has_field, field_str, omitted, omitted_marker, set_field, with_field, items_view, json_parse, json_text, json_to_string,
    json_view, lemma_entries_view_push, lemma_items_view_push, obj_insert, obj_lookup, obj_set,
    parse_json_text, Json, JsonNumber, JsonV, NumberV,
};
use crate::text::{strings_of, ascii_lower, contains_chars, lower_chars, chars_eq_str, owned, seq_contains, str_eq, to_chars, utf8_len};
use crate::url::{pairs_view, query_pairs, replace_query, url_query_pairs, url_with_query};
use super::{request_spec, redact_request_with_patterns, json_str, redact_value_spec, redact_value_with_patterns, redacted, sensitive_name, sensitive_spec};

verus! {

// ----- key/value rows -------------------------------------------------------

/// The text of a row's `key` field, or the empty text.
pub open spec fn row_key(es: Seq<(Seq<char>, JsonV)>) -> Seq<char> {
    match obj_lookup(es, "key"@) {
        Some(JsonV::Str(k)) => k,
        _ => seq![],
    }
}

/// A row whose key is sensitive gets its `value` redacted (unless the value
/// is a text holding a `{{` placeholder) and is flagged `secret: true`.
pub open spec fn mark_row(orig: Seq<(Seq<char>, JsonV)>, es: Seq<(Seq<char>, JsonV)>, patterns: Seq<Seq<char>>) -> Seq<(Seq<char>, JsonV)> {
    if sensitive_spec(row_key(orig), patterns) {
        let val = obj_lookup(orig, "value"@);
        let keep = match val {
            Some(JsonV::Str(t)) => seq_contains(t, "{{"@),
            _ => false,
        };
        let es1 = if !keep && val is Some { obj_insert(es, "value"@, JsonV::Str(redacted())) } else { es };
        obj_insert(es1, "secret"@, JsonV::Bool(true))
    } else {
        es
    }
}

/// `redact_key_value_rows`: in every object of the document (however deep),
/// a `key` that is sensitive has its `value` redacted and the row marked secret.
pub open spec fn rows_spec(v: JsonV, patterns: Seq<Seq<char>>) -> JsonV
    decreases v,
{
    match v {
        JsonV::Object(es) => JsonV::Object(mark_row(es, rows_entries_spec(es, patterns), patterns)),
        JsonV::Array(items) => JsonV::Array(rows_items_spec(items, patterns)),
        _ => v,
    }
}

pub open spec fn rows_items_spec(items: Seq<JsonV>, patterns: Seq<Seq<char>>) -> Seq<JsonV>
    decreases items,
{
    if items.len() == 0 {
        seq![]
    } else {
        rows_items_spec(items.drop_last(), patterns).push(rows_spec(items.last(), patterns))
    }
}

pub open spec fn rows_entries_spec(es: Seq<(Seq<char>, JsonV)>, patterns: Seq<Seq<char>>) -> Seq<(Seq<char>, JsonV)>
    decreases es,
{
    if es.len() == 0 {
        seq![]
    } else {
        rows_entries_spec(es.drop_last(), patterns).push((es.last().0, rows_spec(es.last().1, patterns)))
    }
}

fn mark_row_exec(orig: &Vec<(String, Json)>, es: Vec<(String, Json)>, patterns: &[String]) -> (r: Vec<(String, Json)>)
    ensures
        entries_view(r@) == mark_row(entries_view(orig@), entries_view(es@), strings_of(patterns@)),
{
    let key_empty = String::new();
    let key: &String = match entry_value(orig, "key") {
        Some(Json::Str(k)) => k,
        _ => &key_empty,
    };
    if !sensitive_name(key.as_str(), patterns) {
        return es;
    }
    let mut out = es;
    let val = entry_value(orig, "value");
    let keep = match val {
        Some(Json::Str(t)) => {
            let tc = to_chars(t.as_str());
            let open = to_chars("{{");
            contains_chars(tc.as_slice(), open.as_slice())
        },
        _ => false,
    };
    proof {
        reveal_strlit("{{");
    }
    if !keep && val.is_some() {
        obj_set(&mut out, "value", json_str("<redacted>"));
    }
    obj_set(&mut out, "secret", Json::Bool(true));
    out
}

/// Marks every key/value row of the document whose key is sensitive.
pub fn redact_key_value_rows(value: &Json, patterns: &[String]) -> (r: Json)
    ensures
        r@ == rows_spec(value@, strings_of(patterns@)),
    decreases value,
{
    let ghost p = strings_of(patterns@);
    match value {
        Json::Object(entries) => {
            let mut out: Vec<(String, Json)> = Vec::new();
            let mut i: usize = 0;
            while i < entries.len()
                invariant
                    i <= entries.len(),
                    *value == Json::Object(*entries),
                    p == strings_of(patterns@),
                    entries_view(out@) == rows_entries_spec(entries_view(entries@.take(i as int)), p),
                decreases entries.len() - i,
            {
                proof {
                    assert(decreases_to!(*value => (*value)->Object_0));
                    assert(decreases_to!(*entries => entries@));
                    assert(decreases_to!(entries@ => entries@[i as int]));
                    assert(decreases_to!(entries@[i as int] => entries@[i as int].1));
                }
                let child = redact_key_value_rows(&entries[i].1, patterns);
                let ghost before = out@;
                out.push((entries[i].0.clone(), child));
                proof {
                    assert(out@.drop_last() == before);
                    assert(entries@.take(i + 1).drop_last() == entries@.take(i as int));
                    assert(entries_view(entries@.take(i + 1)).drop_last() == entries_view(entries@.take(i as int)));
                    assert(entries_view(entries@.take(i + 1)).last() == (entries@[i as int].0@, json_view(entries@[i as int].1)));
                }
                i += 1;
            }
            assert(entries@.take(entries.len() as int) == entries@);
            Json::Object(mark_row_exec(entries, out, patterns))
        },
        Json::Array(items) => {
            let mut out: Vec<Json> = Vec::new();
            let mut i: usize = 0;
            while i < items.len()
                invariant
                    i <= items.len(),
                    *value == Json::Array(*items),
                    p == strings_of(patterns@),
                    items_view(out@) == rows_items_spec(items_view(items@.take(i as int)), p),
                decreases items.len() - i,
            {
                proof {
                    assert(decreases_to!(*value => (*value)->Array_0));
                    assert(decreases_to!(*items => items@));
                    assert(decreases_to!(items@ => items@[i as int]));
                }
                let child = redact_key_value_rows(&items[i], patterns);
                let ghost before = out@;
                out.push(child);
                proof {
                    assert(out@.drop_last() == before);
                    assert(items@.take(i + 1).drop_last() == items@.take(i as int));
                    assert(items_view(items@.take(i + 1)).drop_last() == items_view(items@.take(i as int)));
                    assert(items_view(items@.take(i + 1)).last() == json_view(items@[i as int]));
                }
                i += 1;
            }
            assert(items@.take(items.len() as int) == items@);
            Json::Array(out)
        },
        _ => value.deep_clone(),
    }
}

// ----- embedded JSON bodies -------------------------------------------------

/// An object of type `json` whose `raw` text parses gets that text redacted.
pub open spec fn mark_embedded(orig: Seq<(Seq<char>, JsonV)>, es: Seq<(Seq<char>, JsonV)>, patterns: Seq<Seq<char>>) -> Seq<(Seq<char>, JsonV)> {
    if obj_lookup(orig, "type"@) == Some(JsonV::Str("json"@)) {
        match obj_lookup(orig, "raw"@) {
            Some(JsonV::Str(t)) => match json_parse(t) {
                Some(parsed) => obj_insert(es, "raw"@, JsonV::Str(json_text(redact_value_spec(parsed, seq![], patterns)))),
                None => es,
            },
            _ => es,
        }
    } else {
        es
    }
}

/// `redact_embedded_json_bodies`: in every object of type `json`, however
/// deep, a `raw` text that is JSON is replaced by its redacted rendering.
pub open spec fn embedded_spec(v: JsonV, patterns: Seq<Seq<char>>) -> JsonV
    decreases v,
{
    match v {
        JsonV::Object(es) => JsonV::Object(mark_embedded(es, embedded_entries_spec(es, patterns), patterns)),
        JsonV::Array(items) => JsonV::Array(embedded_items_spec(items, patterns)),
        _ => v,
    }
}

pub open spec fn embedded_items_spec(items: Seq<JsonV>, patterns: Seq<Seq<char>>) -> Seq<JsonV>
    decreases items,
{
    if items.len() == 0 {
        seq![]
    } else {
        embedded_items_spec(items.drop_last(), patterns).push(embedded_spec(items.last(), patterns))
    }
}

pub open spec fn embedded_entries_spec(es: Seq<(Seq<char>, JsonV)>, patterns: Seq<Seq<char>>) -> Seq<(Seq<char>, JsonV)>
    decreases es,
{
    if es.len() == 0 {
        seq![]
    } else {
        embedded_entries_spec(es.drop_last(), patterns).push((es.last().0, embedded_spec(es.last().1, patterns)))
    }
}

fn mark_embedded_exec(orig: &Vec<(String, Json)>, es: Vec<(String, Json)>, patterns: &[String]) -> (r: Vec<(String, Json)>)
    ensures
        entries_view(r@) == mark_embedded(entries_view(orig@), entries_view(es@), strings_of(patterns@)),
{
    proof {
        reveal_strlit("json");
    }
    let is_json = match entry_value(orig, "type") {
        Some(Json::Str(t)) => str_eq(t.as_str(), "json"),
        _ => false,
    };
    if !is_json {
        return es;
    }
    match entry_value(orig, "raw") {
        Some(Json::Str(t)) => match parse_json_text(t.as_str()) {
            Some(parsed) => {
                let none: Vec<String> = Vec::new();
                assert(strings_of(none@) =~= seq![]);
                let safe = redact_value_with_patterns(&parsed, none.as_slice(), patterns);
                let text = json_to_string(&safe);
                let mut out = es;
                obj_set(&mut out, "raw", Json::Str(text));
                out
            },
            None => es,
        },
        _ => es,
    }
}

/// Redacts the JSON texts that request bodies of type `json` embed.
pub fn redact_embedded_json_bodies(value: &Json, patterns: &[String]) -> (r: Json)
    ensures
        r@ == embedded_spec(value@, strings_of(patterns@)),
    decreases value,
{
    let ghost p = strings_of(patterns@);
    match value {
        Json::Object(entries) => {
            let mut out: Vec<(String, Json)> = Vec::new();
            let mut i: usize = 0;
            while i < entries.len()
                invariant
                    i <= entries.len(),
                    *value == Json::Object(*entries),
                    p == strings_of(patterns@),
                    entries_view(out@) == embedded_entries_spec(entries_view(entries@.take(i as int)), p),
                decreases entries.len() - i,
            {
                proof {
                    assert(decreases_to!(*value => (*value)->Object_0));
                    assert(decreases_to!(*entries => entries@));
                    assert(decreases_to!(entries@ => entries@[i as int]));
                    assert(decreases_to!(entries@[i as int] => entries@[i as int].1));
                }
                let child = redact_embedded_json_bodies(&entries[i].1, patterns);
                let ghost before = out@;
                out.push((entries[i].0.clone(), child));
                proof {
                    assert(out@.drop_last() == before);
                    assert(entries@.take(i + 1).drop_last() == entries@.take(i as int));
                    assert(entries_view(entries@.take(i + 1)).drop_last() == entries_view(entries@.take(i as int)));
                    assert(entries_view(entries@.take(i + 1)).last() == (entries@[i as int].0@, json_view(entries@[i as int].1)));
                }
                i += 1;
            }
            assert(entries@.take(entries.len() as int) == entries@);
            Json::Object(mark_embedded_exec(entries, out, patterns))
        },
        Json::Array(items) => {
            let mut out: Vec<Json> = Vec::new();
            let mut i: usize = 0;
            while i < items.len()
                invariant
                    i <= items.len(),
                    *value == Json::Array(*items),
                    p == strings_of(patterns@),
                    items_view(out@) == embedded_items_spec(items_view(items@.take(i as int)), p),
                decreases items.len() - i,
            {
                proof {
                    assert(decreases_to!(*value => (*value)->Array_0));
                    assert(decreases_to!(*items => items@));
                    assert(decreases_to!(items@ => items@[i as int]));
                }
                let child = redact_embedded_json_bodies(&items[i], patterns);
                let ghost before = out@;
                out.push(child);
                proof {
                    assert(out@.drop_last() == before);
                    assert(items@.take(i + 1).drop_last() == items@.take(i as int));
                    assert(items_view(items@.take(i + 1)).drop_last() == items_view(items@.take(i as int)));
                    assert(items_view(items@.take(i + 1)).last() == json_view(items@[i as int]));
                }
                i += 1;
            }
            assert(items@.take(items.len() as int) == items@);
            Json::Array(out)
        },
        _ => value.deep_clone(),
    }
}


// ----- URL query -------------------------------------------------------------

/// The query pairs with the values of sensitive keys redacted.
pub open spec fn redact_pairs(ps: Seq<(Seq<char>, Seq<char>)>, patterns: Seq<Seq<char>>) -> Seq<(Seq<char>, Seq<char>)> {
    ps.map_values(|p: (Seq<char>, Seq<char>)| (p.0, if sensitive_spec(p.0, patterns) { redacted() } else { p.1 }))
}

/// `redact_url_query`: when `url` is a text that parses and has query
/// pairs, its query is rewritten with the sensitive values redacted.
pub open spec fn url_query_spec(v: JsonV, patterns: Seq<Seq<char>>) -> JsonV {
    match field_str(v, "url"@) {
        Some(u) => match url_query_pairs(u) {
            Some(ps) => if ps.len() == 0 {
                v
            } else {
                set_field(v, "url"@, JsonV::Str(url_with_query(u, redact_pairs(ps, patterns))))
            },
            None => v,
        },
        None => v,
    }
}

/// Redacts the values of sensitive query parameters in the `url` field.
pub fn redact_url_query(value: Json, patterns: &[String]) -> (r: Json)
    ensures
        r@ == url_query_spec(value@, strings_of(patterns@)),
{
    let url: String = match value.get_str("url") {
        Some(u) => u.clone(),
        None => return value,
    };
    let pairs = match query_pairs(url.as_str()) {
        Some(p) => p,
        None => return value,
    };
    if pairs.len() == 0 {
        return value;
    }
    let ghost ps = pairs_view(pairs@);
    let mut safe: Vec<(String, String)> = Vec::new();
    let mut i: usize = 0;
    while i < pairs.len()
        invariant
            i <= pairs.len(),
            ps == pairs_view(pairs@),
            pairs_view(safe@) == redact_pairs(ps.take(i as int), strings_of(patterns@)),
        decreases pairs.len() - i,
    {
        let key = pairs[i].0.clone();
        let v = if sensitive_name(key.as_str(), patterns) {
            owned("<redacted>")
        } else {
            pairs[i].1.clone()
        };
        let ghost before = safe@;
        safe.push((key, v));
        proof {
            assert(ps.take(i + 1) == ps.take(i as int).push(ps[i as int]));
            assert(pairs_view(safe@) == pairs_view(before).push((safe@.last().0@, safe@.last().1@)));
            assert(redact_pairs(ps.take(i + 1), strings_of(patterns@)) =~= redact_pairs(ps.take(i as int), strings_of(patterns@)).push(
                (ps[i as int].0, if sensitive_spec(ps[i as int].0, strings_of(patterns@)) { redacted() } else { ps[i as int].1 }),
            ));
        }
        i += 1;
    }
    assert(ps.take(pairs.len() as int) == ps);
    let rewritten = replace_query(url.as_str(), &safe);
    with_field(value, "url", Json::Str(rewritten))
}

// ----- file contents -------------------------------------------------------

/// The number of items of a field that holds an array (0 otherwise).
pub open spec fn array_len_or_zero(v: JsonV, key: Seq<char>) -> nat {
    match field_array(v, key) {
        Some(a) => a.len(),
        None => 0,
    }
}

/// A file entry whose `data` is replaced by a marker with its byte count.
pub open spec fn file_redacted(f: JsonV) -> JsonV {
    match f {
        JsonV::Object(es) => JsonV::Object(obj_insert(es, "data"@, omitted_marker((array_len_or_zero(f, "data"@) as usize) as u64))),
        _ => f,
    }
}

/// A form row whose `files` are each redacted.
pub open spec fn row_files_redacted(row: JsonV) -> JsonV {
    match field(row, "files"@) {
        Some(JsonV::Array(files)) => set_field(row, "files"@, JsonV::Array(files.map_values(|f: JsonV| file_redacted(f)))),
        _ => row,
    }
}

/// `redact_file_contents`: the bytes of every file of `body.formData` are
/// replaced by `{"omitted": true, "sizeBytes": n}`.
pub open spec fn file_contents_spec(v: JsonV) -> JsonV {
    match field(v, "body"@) {
        Some(body) => match field(body, "formData"@) {
            Some(JsonV::Array(rows)) => set_field(
                v,
                "body"@,
                set_field(body, "formData"@, JsonV::Array(rows.map_values(|r: JsonV| row_files_redacted(r)))),
            ),
            _ => v,
        },
        None => v,
    }
}

fn redact_file(f: &Json) -> (r: Json)
    ensures
        r@ == file_redacted(f@),
{
    let size: usize = match f.get_array("data") {
        Some(a) => {
            proof {
                crate::json::lemma_items_view(a@);
            }
            a.len()
        },
        None => 0,
    };
    match f {
        Json::Object(_) => with_field(f.deep_clone(), "data", omitted(size as u64)),
        _ => f.deep_clone(),
    }
}

fn redact_row_files(row: &Json) -> (r: Json)
    ensures
        r@ == row_files_redacted(row@),
{
    match row.get("files") {
        Some(Json::Array(files)) => {
            let ghost fv = items_view(files@);
            let mut out: Vec<Json> = Vec::new();
            let mut i: usize = 0;
            while i < files.len()
                invariant
                    i <= files.len(),
                    fv == items_view(files@),
                    items_view(out@) == items_view(files@.take(i as int)).map_values(|f: JsonV| file_redacted(f)),
                decreases files.len() - i,
            {
                let g = redact_file(&files[i]);
                let ghost before = out@;
                out.push(g);
                proof {
                    lemma_items_view_push(before, g);
                    assert(out@ == before.push(g));
                    assert(files@.take(i + 1).drop_last() == files@.take(i as int));
                    assert(items_view(files@.take(i + 1)) == items_view(files@.take(i as int)).push(json_view(files@[i as int])));
                    assert(items_view(files@.take(i + 1)).map_values(|f: JsonV| file_redacted(f)) =~= items_view(files@.take(i as int)).map_values(|f: JsonV| file_redacted(f)).push(file_redacted(json_view(files@[i as int]))));
                }
                i += 1;
            }
            assert(files@.take(files.len() as int) == files@);
            with_field(row.deep_clone(), "files", Json::Array(out))
        },
        _ => row.deep_clone(),
    }
}

/// Replaces the bytes of the files of a multipart body by their size.
pub fn redact_file_contents(value: Json) -> (r: Json)
    ensures
        r@ == file_contents_spec(value@),
{
    let body = match value.get("body") {
        Some(b) => b.deep_clone(),
        None => return value,
    };
    let new_rows = match body.get("formData") {
        Some(Json::Array(rows)) => {
            let mut out: Vec<Json> = Vec::new();
            let mut i: usize = 0;
            while i < rows.len()
                invariant
                    i <= rows.len(),
                    items_view(out@) == items_view(rows@.take(i as int)).map_values(|r: JsonV| row_files_redacted(r)),
                decreases rows.len() - i,
            {
                let g = redact_row_files(&rows[i]);
                let ghost before = out@;
                out.push(g);
                proof {
                    lemma_items_view_push(before, g);
                    assert(out@ == before.push(g));
                    assert(rows@.take(i + 1).drop_last() == rows@.take(i as int));
                    assert(items_view(rows@.take(i + 1)) == items_view(rows@.take(i as int)).push(json_view(rows@[i as int])));
                    assert(items_view(rows@.take(i + 1)).map_values(|r: JsonV| row_files_redacted(r)) =~= items_view(rows@.take(i as int)).map_values(|r: JsonV| row_files_redacted(r)).push(row_files_redacted(json_view(rows@[i as int]))));
                }
                i += 1;
            }
            assert(rows@.take(rows.len() as int) == rows@);
            out
        },
        _ => return value,
    };
    let new_body = with_field(body, "formData", Json::Array(new_rows));
    with_field(value, "body", new_body)
}

// ----- bodies ----------------------------------------------------------------

/// What replaces a body: `{"omitted": true, "sizeBytes": n}` with `n` the
/// length of its compact JSON text, keeping its `type` when it has one.
pub open spec fn body_marker(child: JsonV) -> JsonV {
    let size = (utf8_len(json_text(child)) as usize) as u64;
    match field(child, "type"@) {
        Some(t) => JsonV::Object(seq![
            ("omitted"@, JsonV::Bool(true)),
            ("sizeBytes"@, JsonV::Number(NumberV::PosInt(size))),
            ("type"@, t),
        ]),
        None => omitted_marker(size),
    }
}

/// `omit_bodies`: every field named `body` (ASCII case-insensitively), at
/// any depth, is replaced by its marker; other values are searched on.
pub open spec fn omit_spec(v: JsonV) -> JsonV
    decreases v,
{
    match v {
        JsonV::Object(es) => JsonV::Object(omit_entries_spec(es)),
        JsonV::Array(items) => JsonV::Array(omit_items_spec(items)),
        _ => v,
    }
}

pub open spec fn omit_items_spec(items: Seq<JsonV>) -> Seq<JsonV>
    decreases items,
{
    if items.len() == 0 {
        seq![]
    } else {
        omit_items_spec(items.drop_last()).push(omit_spec(items.last()))
    }
}

pub open spec fn omit_entries_spec(es: Seq<(Seq<char>, JsonV)>) -> Seq<(Seq<char>, JsonV)>
    decreases es,
{
    if es.len() == 0 {
        seq![]
    } else {
        let (k, c) = es.last();
        omit_entries_spec(es.drop_last()).push(
            (k, if ascii_lower(k) == "body"@ { body_marker(c) } else { omit_spec(c) }),
        )
    }
}

fn body_marker_exec(child: &Json) -> (r: Json)
    ensures
        r@ == body_marker(child@),
{
    let text = json_to_string(child);
    let size = text.as_str().len();
    let marker = omitted(size as u64);
    match child.get("type") {
        Some(t) => {
            let es = vec![
                (owned("omitted"), Json::Bool(true)),
                (owned("sizeBytes"), Json::Number(JsonNumber::PosInt(size as u64))),
                (owned("type"), t.deep_clone()),
            ];
            proof {
                crate::json::lemma_entries_view(es@);
                assert(entries_view(es@) =~= seq![
                    ("omitted"@, JsonV::Bool(true)),
                    ("sizeBytes"@, JsonV::Number(NumberV::PosInt((utf8_len(json_text(child@)) as usize) as u64))),
                    ("type"@, t@),
                ]);
            }
            Json::Object(es)
        },
        None => marker,
    }
}

/// Replaces every body, at any depth, by a marker with its size.
pub fn omit_bodies(value: &Json) -> (r: Json)
    ensures
        r@ == omit_spec(value@),
    decreases value,
{
    match value {
        Json::Object(entries) => {
            let mut out: Vec<(String, Json)> = Vec::new();
            let mut i: usize = 0;
            while i < entries.len()
                invariant
                    i <= entries.len(),
                    *value == Json::Object(*entries),
                    entries_view(out@) == omit_entries_spec(entries_view(entries@.take(i as int))),
                decreases entries.len() - i,
            {
                let kc = to_chars(entries[i].0.as_str());
                let kl = lower_chars(kc.as_slice());
                let child = if chars_eq_str(kl.as_slice(), "body") {
                    body_marker_exec(&entries[i].1)
                } else {
                    proof {
                        assert(decreases_to!(*value => (*value)->Object_0));
                        assert(decreases_to!(*entries => entries@));
                        assert(decreases_to!(entries@ => entries@[i as int]));
                        assert(decreases_to!(entries@[i as int] => entries@[i as int].1));
                    }
                    omit_bodies(&entries[i].1)
                };
                let ghost before = out@;
                out.push((entries[i].0.clone(), child));
                proof {
                    assert(out@.drop_last() == before);
                    assert(entries@.take(i + 1).drop_last() == entries@.take(i as int));
                    assert(entries_view(entries@.take(i + 1)).drop_last() == entries_view(entries@.take(i as int)));
                    assert(entries_view(entries@.take(i + 1)).last() == (entries@[i as int].0@, json_view(entries@[i as int].1)));
                }
                i += 1;
            }
            assert(entries@.take(entries.len() as int) == entries@);
            Json::Object(out)
        },
        Json::Array(items) => {
            let mut out: Vec<Json> = Vec::new();
            let mut i: usize = 0;
            while i < items.len()
                invariant
                    i <= items.len(),
                    *value == Json::Array(*items),
                    items_view(out@) == omit_items_spec(items_view(items@.take(i as int))),
                decreases items.len() - i,
            {
                proof {
                    assert(decreases_to!(*value => (*value)->Array_0));
                    assert(decreases_to!(*items => items@));
                    assert(decreases_to!(items@ => items@[i as int]));
                }
                let child = omit_bodies(&items[i]);
                let ghost before = out@;
                out.push(child);
                proof {
                    assert(out@.drop_last() == before);
                    assert(items@.take(i + 1).drop_last() == items@.take(i as int));
                    assert(items_view(items@.take(i + 1)).drop_last() == items_view(items@.take(i as int)));
                    assert(items_view(items@.take(i + 1)).last() == json_view(items@[i as int]));
                }
                i += 1;
            }
            assert(items@.take(items.len() as int) == items@);
            Json::Array(out)
        },
        _ => value.deep_clone(),
    }
}


// ----- embedded requests -----------------------------------------------------

/// `redact_request_shapes`: every object, at any depth, that has `method`,
/// `url` and `body` fields is redacted as a request; the search does not
/// go inside such an object.
pub open spec fn shapes_spec(v: JsonV, patterns: Seq<Seq<char>>) -> JsonV
    decreases v,
{
    match v {
        JsonV::Object(es) => if has_field(v, "method"@) && has_field(v, "url"@) && has_field(v, "body"@) {
            request_spec(v, patterns)
        } else {
            JsonV::Object(shapes_entries_spec(es, patterns))
        },
        JsonV::Array(items) => JsonV::Array(shapes_items_spec(items, patterns)),
        _ => v,
    }
}

pub open spec fn shapes_items_spec(items: Seq<JsonV>, patterns: Seq<Seq<char>>) -> Seq<JsonV>
    decreases items,
{
    if items.len() == 0 {
        seq![]
    } else {
        shapes_items_spec(items.drop_last(), patterns).push(shapes_spec(items.last(), patterns))
    }
}

pub open spec fn shapes_entries_spec(es: Seq<(Seq<char>, JsonV)>, patterns: Seq<Seq<char>>) -> Seq<(Seq<char>, JsonV)>
    decreases es,
{
    if es.len() == 0 {
        seq![]
    } else {
        shapes_entries_spec(es.drop_last(), patterns).push((es.last().0, shapes_spec(es.last().1, patterns)))
    }
}

/// Redacts every request that a document embeds, at any depth.
pub fn redact_request_shapes(value: &Json, patterns: &[String]) -> (r: Json)
    ensures
        r@ == shapes_spec(value@, strings_of(patterns@)),
    decreases value,
{
    let ghost p = strings_of(patterns@);
    match value {
        Json::Object(entries) => {
            if value.get("method").is_some() && value.get("url").is_some() && value.get("body").is_some() {
                return redact_request_with_patterns(value, patterns);
            }
            let mut out: Vec<(String, Json)> = Vec::new();
            let mut i: usize = 0;
            while i < entries.len()
                invariant
                    i <= entries.len(),
                    *value == Json::Object(*entries),
                    p == strings_of(patterns@),
                    entries_view(out@) == shapes_entries_spec(entries_view(entries@.take(i as int)), p),
                decreases entries.len() - i,
            {
                proof {
                    assert(decreases_to!(*value => (*value)->Object_0));
                    assert(decreases_to!(*entries => entries@));
                    assert(decreases_to!(entries@ => entries@[i as int]));
                    assert(decreases_to!(entries@[i as int] => entries@[i as int].1));
                }
                let child = redact_request_shapes(&entries[i].1, patterns);
                let ghost before = out@;
                out.push((entries[i].0.clone(), child));
                proof {
                    assert(out@.drop_last() == before);
                    assert(entries@.take(i + 1).drop_last() == entries@.take(i as int));
                    assert(entries_view(entries@.take(i + 1)).drop_last() == entries_view(entries@.take(i as int)));
                    assert(entries_view(entries@.take(i + 1)).last() == (entries@[i as int].0@, json_view(entries@[i as int].1)));
                }
                i += 1;
            }
            assert(entries@.take(entries.len() as int) == entries@);
            Json::Object(out)
        },
        Json::Array(items) => {
            let mut out: Vec<Json> = Vec::new();
            let mut i: usize = 0;
            while i < items.len()
                invariant
                    i <= items.len(),
                    *value == Json::Array(*items),
                    p == strings_of(patterns@),
                    items_view(out@) == shapes_items_spec(items_view(items@.take(i as int)), p),
                decreases items.len() - i,
            {
                proof {
                    assert(decreases_to!(*value => (*value)->Array_0));
                    assert(decreases_to!(*items => items@));
                    assert(decreases_to!(items@ => items@[i as int]));
                }
                let child = redact_request_shapes(&items[i], patterns);
                let ghost before = out@;
                out.push(child);
                proof {
                    assert(out@.drop_last() == before);
                    assert(items@.take(i + 1).drop_last() == items@.take(i as int));
                    assert(items_view(items@.take(i + 1)).drop_last() == items_view(items@.take(i as int)));
                    assert(items_view(items@.take(i + 1)).last() == json_view(items@[i as int]));
                }
                i += 1;
            }
            assert(items@.take(items.len() as int) == items@);
            Json::Array(out)
        },
        _ => value.deep_clone(),
    }
}

} // verus!
