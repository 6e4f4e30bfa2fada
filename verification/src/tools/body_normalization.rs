use vstd::prelude::*;

use crate::json::{field_array, field_bool, field_str, items_view, json_parse, json_view, lemma_items_view, parse_json_text, set_field, with_field, Json, JsonV};
use crate::text::{chars_eq_str, from_chars, owned, to_chars, trim_chars, trim_spec};

verus! {

/// The body types that are kept as they are.
pub open spec fn is_explicit_type(t: Seq<char>) -> bool {
    t == "json"@ || t == "text"@ || t == "form-data"@ || t == "x-www-form-urlencoded"@
}

/// The declared type of a body, `none` when it has none.
pub open spec fn body_type(body: JsonV) -> Seq<char> {
    match field_str(body, "type"@) {
        Some(t) => t,
        None => "none"@,
    }
}

/// A form row counts when it is not disabled and has a non-empty key.
pub open spec fn is_live_form_row(row: JsonV) -> bool {
    field_bool(row, "enabled"@) != Some(false) && (field_str(row, "key"@) matches Some(k) && k.len() > 0)
}

/// At least one of the rows is live.
pub open spec fn any_live_row(rows: Seq<JsonV>) -> bool {
    exists|i: int| 0 <= i < rows.len() && is_live_form_row(#[trigger] rows[i])
}

/// The body has at least one live form row.
pub open spec fn has_form_data(body: JsonV) -> bool {
    match field_array(body, "formData"@) {
        Some(rows) => any_live_row(rows),
        None => false,
    }
}

/// The trimmed raw text of a body.
pub open spec fn raw_text(body: JsonV) -> Seq<char> {
    trim_spec(
        match field_str(body, "raw"@) {
            Some(r) => r,
            None => seq![],
        },
    )
}

/// The type inferred for a body without an explicit one: form data, else
/// none for an empty raw text, else json when the raw text parses, else text.
pub open spec fn inferred_type(body: JsonV) -> Seq<char> {
    if has_form_data(body) {
        "form-data"@
    } else if raw_text(body).len() == 0 {
        "none"@
    } else if json_parse(raw_text(body)) is Some {
        "json"@
    } else {
        "text"@
    }
}

/// What `normalize` makes of a body: an object whose type is not one of the
/// explicit ones gets the inferred type; anything else is kept.
pub open spec fn normalize_spec(body: JsonV) -> JsonV {
    match body {
        JsonV::Object(_) => if is_explicit_type(body_type(body)) {
            body
        } else {
            set_field(body, "type"@, JsonV::Str(inferred_type(body)))
        },
        _ => body,
    }
}

fn has_form_data_exec(body: &Json) -> (r: bool)
    ensures
        r == has_form_data(body@),
{
    match body.get_array("formData") {
        None => false,
        Some(rows) => {
            proof {
                lemma_items_view(rows@);
            }
            let ghost rv = items_view(rows@);
            let mut i: usize = 0;
            while i < rows.len()
                invariant
                    i <= rows.len(),
                    rv == items_view(rows@),
                    field_array(body@, "formData"@) == Some(rv),
                    rv.len() == rows.len(),
                    forall|k: int| 0 <= k < rows.len() ==> #[trigger] rv[k] == json_view(rows@[k]),
                    forall|k: int| 0 <= k < i ==> !is_live_form_row(#[trigger] rv[k]),
                decreases rows.len() - i,
            {
                let row = &rows[i];
                let enabled = match row.get_bool("enabled") {
                    Some(b) => b,
                    None => true,
                };
                let keyed = match row.get_str("key") {
                    Some(k) => !k.as_str().is_empty(),
                    None => false,
                };
                if enabled && keyed {
                    assert(is_live_form_row(rv[i as int]));
                    assert(any_live_row(rv));
                    return true;
                }
                i += 1;
            }
            false
        },
    }
}

/// Fills in the type of a body that does not declare one of the explicit
/// types: form data when it has live form rows, `none` when its raw text is
/// blank, `json` when the raw text parses as JSON, `text` otherwise.
pub fn normalize(body: Json) -> (r: Json)
    ensures
        r@ == normalize_spec(body@),
{
    proof {
        reveal_strlit("json");
        reveal_strlit("text");
        reveal_strlit("form-data");
        reveal_strlit("x-www-form-urlencoded");
        reveal_strlit("none");
    }
    match body {
        Json::Object(_) => {},
        _ => return body,
    }
    let current = match body.get_str("type") {
        Some(t) => t.clone(),
        None => owned("none"),
    };
    let c = to_chars(current.as_str());
    if chars_eq_str(c.as_slice(), "json") || chars_eq_str(c.as_slice(), "text") || chars_eq_str(c.as_slice(), "form-data")
        || chars_eq_str(c.as_slice(), "x-www-form-urlencoded") {
        return body;
    }
    let raw_chars = match body.get_str("raw") {
        Some(r) => to_chars(r.as_str()),
        None => Vec::new(),
    };
    let raw = trim_chars(raw_chars.as_slice());
    let inferred: &str = if has_form_data_exec(&body) {
        "form-data"
    } else if raw.len() == 0 {
        "none"
    } else {
        let raw_text = from_chars(raw.as_slice());
        if parse_json_text(raw_text.as_str()).is_some() {
            "json"
        } else {
            "text"
        }
    };
    with_field(body, "type", Json::Str(owned(inferred)))
}

} // verus!
