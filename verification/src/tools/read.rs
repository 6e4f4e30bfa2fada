use vstd::prelude::*;

use crate::json::{entries_view, field, field_str, items_view, json_view, lemma_entries_view, lemma_items_view, Json, JsonV};
use crate::order::{is_stable_sort, pair_keys, stable_order};
use crate::text::{ascii_lower, join_sep, lower_chars, owned, push_chars, to_chars};
use crate::tools::{page, page_spec};
use crate::tools::drafts::{opt_str_json, opt_str_v};
use crate::types::{capability_name, Capability};

verus! {

/// A workspace as `tesapi_list_workspaces` lists it.
pub open spec fn workspace_entry_spec(id: Seq<char>, name: Seq<char>, sync_type: Seq<char>, capability: Capability) -> JsonV {
    JsonV::Object(seq![
        ("capability"@, JsonV::Str(capability_name(capability))),
        ("id"@, JsonV::Str(id)),
        ("name"@, JsonV::Str(name)),
        ("syncType"@, JsonV::Str(sync_type)),
    ])
}

/// The entry of a workspace in the list of workspaces.
pub fn workspace_entry(id: &str, name: &str, sync_type: &str, capability: Capability) -> (r: Json)
    ensures
        r@ == workspace_entry_spec(id@, name@, sync_type@, capability),
{
    let es = vec![
        (owned("capability"), Json::Str(owned(capability.as_str()))),
        (owned("id"), Json::Str(owned(id))),
        (owned("name"), Json::Str(owned(name))),
        (owned("syncType"), Json::Str(owned(sync_type))),
    ];
    proof {
        lemma_entries_view(es@);
        assert(entries_view(es@) =~= seq![
            ("capability"@, JsonV::Str(capability_name(capability))),
            ("id"@, JsonV::Str(id@)),
            ("name"@, JsonV::Str(name@)),
            ("syncType"@, JsonV::Str(sync_type@)),
        ]);
    }
    Json::Object(es)
}

/// The text of a field in ASCII lowercase, empty when it is not a text.
pub open spec fn lower_field(v: JsonV, key: Seq<char>) -> Seq<char> {
    match field_str(v, key) {
        Some(s) => ascii_lower(s),
        None => seq![],
    }
}

/// The key that orders search results: the collection, path, name and
/// request id in ASCII lowercase, separated by NUL characters.
pub open spec fn search_key(v: JsonV) -> Seq<char> {
    join_sep(
        seq![lower_field(v, "collectionId"@), lower_field(v, "path"@), lower_field(v, "name"@), lower_field(v, "requestId"@)],
        seq!['\0'],
    )
}

fn lower_field_exec(v: &Json, key: &str) -> (r: Vec<char>)
    ensures
        r@ == lower_field(v@, key@),
{
    match v.get_str(key) {
        Some(s) => {
            let cs = to_chars(s.as_str());
            lower_chars(cs.as_slice())
        },
        None => Vec::new(),
    }
}

/// The ordering key of a search result.
pub fn search_key_exec(v: &Json) -> (r: Vec<char>)
    ensures
        r@ == search_key(v@),
{
    let a = lower_field_exec(v, "collectionId");
    let b = lower_field_exec(v, "path");
    let c = lower_field_exec(v, "name");
    let d = lower_field_exec(v, "requestId");
    let mut out: Vec<char> = Vec::new();
    push_chars(&mut out, a.as_slice());
    out.push('\0');
    push_chars(&mut out, b.as_slice());
    out.push('\0');
    push_chars(&mut out, c.as_slice());
    out.push('\0');
    push_chars(&mut out, d.as_slice());
    proof {
        let sep = seq!['\0'];
        let p1 = seq![a@];
        let p2 = seq![a@, b@];
        let p3 = seq![a@, b@, c@];
        let p4 = seq![a@, b@, c@, d@];
        assert(p2.drop_last() =~= p1);
        assert(p3.drop_last() =~= p2);
        assert(p4.drop_last() =~= p3);
        assert(join_sep(p1, sep) == a@);
        assert(join_sep(p2, sep) == a@ + sep + b@);
        assert(join_sep(p3, sep) == a@ + sep + b@ + sep + c@);
        assert(join_sep(p4, sep) == a@ + sep + b@ + sep + c@ + sep + d@);
        assert(out@ =~= a@ + sep + b@ + sep + c@ + sep + d@);
    }
    out
}

/// Sort keys with nothing to break ties but their order in the input.
pub open spec fn single_keys(keys: Seq<Vec<char>>) -> Seq<(Seq<char>, Seq<char>)> {
    keys.map_values(|k: Vec<char>| (k@, Seq::<char>::empty()))
}

/// The values ordered stably by the given keys.
fn ordered_by(values: Vec<Json>, keys: Vec<Vec<char>>) -> (r: Vec<Json>)
    requires
        keys.len() == values.len(),
    ensures
        exists|order: Seq<usize>|
            is_stable_sort(single_keys(keys@), order)
                && r.len() == order.len() && forall|k: int| 0 <= k < r.len() ==> (#[trigger] r@[k])@ == values@[order[k] as int]@,
{
    let mut empty: Vec<Vec<char>> = Vec::new();
    let mut i: usize = 0;
    while i < keys.len()
        invariant
            i <= keys.len(),
            empty.len() == i,
            forall|k: int| 0 <= k < i ==> (#[trigger] empty@[k])@ == Seq::<char>::empty(),
        decreases keys.len() - i,
    {
        empty.push(Vec::new());
        i += 1;
    }
    let order = stable_order(&keys, &empty);
    assert(pair_keys(keys@, empty@) =~= single_keys(keys@));
    let mut out: Vec<Json> = Vec::new();
    let mut k: usize = 0;
    while k < order.len()
        invariant
            k <= order.len(),
            order.len() == values.len(),
            forall|m: int| 0 <= m < order.len() ==> #[trigger] order@[m] < values.len(),
            out.len() == k,
            forall|m: int| 0 <= m < k ==> (#[trigger] out@[m])@ == values@[order@[m] as int]@,
        decreases order.len() - k,
    {
        out.push(values[order[k]].deep_clone());
        k += 1;
    }
    out
}

/// The sort keys of search results.
pub open spec fn search_keys(values: Seq<JsonV>) -> Seq<(Seq<char>, Seq<char>)> {
    values.map_values(|v: JsonV| (search_key(v), Seq::<char>::empty()))
}

/// Search results ordered by collection, path, name and request id (ASCII
/// case-insensitively); results with equal keys keep their order.
pub fn sort_search_results(values: Vec<Json>) -> (r: Vec<Json>)
    ensures
        exists|order: Seq<usize>|
            is_stable_sort(search_keys(items_view(values@)), order) && r.len() == order.len() && forall|k: int|
                0 <= k < r.len() ==> (#[trigger] r@[k])@ == items_view(values@)[order[k] as int],
{
    proof {
        lemma_items_view(values@);
    }
    let mut keys: Vec<Vec<char>> = Vec::new();
    let mut i: usize = 0;
    while i < values.len()
        invariant
            i <= values.len(),
            keys.len() == i,
            forall|k: int| 0 <= k < i ==> (#[trigger] keys@[k])@ == search_key(values@[k]@),
        decreases values.len() - i,
    {
        keys.push(search_key_exec(&values[i]));
        i += 1;
    }
    let ghost kv = keys@;
    let r = ordered_by(values, keys);
    proof {
        assert(single_keys(kv) =~= search_keys(items_view(values@)));
    }
    r
}

/// The name of an environment entry, in ASCII lowercase (empty when absent).
pub open spec fn environment_key(v: JsonV) -> Seq<char> {
    match field(v, "environment"@) {
        Some(e) => lower_field(e, "name"@),
        None => seq![],
    }
}

/// The sort keys of environment entries.
pub open spec fn environment_keys(values: Seq<JsonV>) -> Seq<(Seq<char>, Seq<char>)> {
    values.map_values(|v: JsonV| (environment_key(v), Seq::<char>::empty()))
}

/// Environment entries ordered by name (ASCII case-insensitively); entries
/// with equal names keep their order.
pub fn sort_environments(values: Vec<Json>) -> (r: Vec<Json>)
    ensures
        exists|order: Seq<usize>|
            is_stable_sort(environment_keys(items_view(values@)), order) && r.len() == order.len() && forall|k: int|
                0 <= k < r.len() ==> (#[trigger] r@[k])@ == items_view(values@)[order[k] as int],
{
    proof {
        lemma_items_view(values@);
    }
    let mut keys: Vec<Vec<char>> = Vec::new();
    let mut i: usize = 0;
    while i < values.len()
        invariant
            i <= values.len(),
            keys.len() == i,
            forall|k: int| 0 <= k < i ==> (#[trigger] keys@[k])@ == environment_key(values@[k]@),
        decreases values.len() - i,
    {
        let key = match values[i].get("environment") {
            Some(e) => lower_field_exec(e, "name"),
            None => Vec::new(),
        };
        keys.push(key);
        i += 1;
    }
    let ghost kv = keys@;
    let r = ordered_by(values, keys);
    proof {
        assert(single_keys(kv) =~= environment_keys(items_view(values@)));
    }
    r
}

/// An environment as `tesapi_list_environments` lists it: its policy's
/// classification and its metadata.
pub fn environment_entry(classification: &Option<String>, metadata: Json) -> (r: Json)
    ensures
        r@ == JsonV::Object(seq![
            ("classification"@, opt_str_v(crate::text::opt_view(*classification))),
            ("environment"@, metadata@),
        ]),
{
    let ghost m = metadata@;
    let es = vec![(owned("classification"), opt_str_json(classification)), (owned("environment"), metadata)];
    proof {
        lemma_entries_view(es@);
        assert(entries_view(es@) =~= seq![
            ("classification"@, opt_str_v(crate::text::opt_view(*classification))),
            ("environment"@, m),
        ]);
    }
    Json::Object(es)
}

/// The entries without those with the given key.
pub open spec fn without_key(es: Seq<(Seq<char>, JsonV)>, key: Seq<char>) -> Seq<(Seq<char>, JsonV)>
    decreases es.len(),
{
    if es.len() == 0 {
        seq![]
    } else if es.last().0 == key {
        without_key(es.drop_last(), key)
    } else {
        without_key(es.drop_last(), key).push(es.last())
    }
}

/// The documentation of a collection as a tool returns it: its requests
/// moved into a page under `requestPage`.
pub open spec fn documentation_page_spec(doc: JsonV, arguments: JsonV) -> JsonV {
    match doc {
        JsonV::Object(es) => {
            let requests = match crate::json::obj_lookup(es, "requests"@) {
                Some(JsonV::Array(items)) => items,
                _ => seq![],
            };
            JsonV::Object(
                without_key(es, "requests"@).push(
                    ("requestPage"@, page_spec("items"@, requests, arguments, 50)),
                ),
            )
        },
        _ => doc,
    }
}

/// Pages the requests of a collection's documentation.
pub fn documentation_page(doc: Json, arguments: &Json) -> (r: Json)
    ensures
        r@ == documentation_page_spec(doc@, arguments@),
{
    let entries = match doc {
        Json::Object(entries) => entries,
        other => return other,
    };
    let ghost es = entries_view(entries@);
    proof {
        lemma_entries_view(entries@);
        crate::json::lemma_obj_index_lookup(es, "requests"@);
    }
    let mut requests: Vec<Json> = Vec::new();
    match crate::json::entry_value(&entries, "requests") {
        Some(Json::Array(items)) => {
            let mut k: usize = 0;
            while k < items.len()
                invariant
                    k <= items.len(),
                    items_view(requests@) == items_view(items@.take(k as int)),
                decreases items.len() - k,
            {
                let ghost before = requests@;
                requests.push(items[k].deep_clone());
                proof {
                    assert(requests@.drop_last() == before);
                    assert(items@.take(k + 1).drop_last() == items@.take(k as int));
                }
                k += 1;
            }
            assert(items@.take(items.len() as int) == items@);
        },
        _ => {},
    }
    let mut rest: Vec<(String, Json)> = Vec::new();
    let mut i: usize = 0;
    while i < entries.len()
        invariant
            i <= entries.len(),
            es == entries_view(entries@),
            entries_view(rest@) == without_key(es.take(i as int), "requests"@),
        decreases entries.len() - i,
    {
        proof {
            lemma_entries_view(entries@);
            assert(es.take(i + 1).drop_last() == es.take(i as int));
            assert(es.take(i + 1).last() == es[i as int]);
        }
        let ghost before = rest@;
        if !crate::text::str_eq(entries[i].0.as_str(), "requests") {
            rest.push((entries[i].0.clone(), entries[i].1.deep_clone()));
            proof {
                assert(rest@.drop_last() == before);
            }
        }
        i += 1;
    }
    assert(es.take(entries.len() as int) == es);
    let paged = page("items", requests, arguments, 50);
    let ghost before = rest@;
    rest.push((owned("requestPage"), paged));
    proof {
        assert(rest@.drop_last() == before);
    }
    Json::Object(rest)
}

} // verus!
