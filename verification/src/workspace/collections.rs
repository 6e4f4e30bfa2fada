use vstd::prelude::*;

use crate::json::{entries_view, field, field_or_null, field_array, field_str, items_view, json_view, lemma_entries_view, lemma_items_view, set_field, with_field, Json, JsonV};
use crate::order::{is_stable_sort, pair_keys, stable_order};
use crate::redaction::{redact_request, request_spec};
use crate::text::{ascii_lower, contains_chars, lower_chars, owned, push_chars, push_str_chars, seq_contains, to_chars};
use crate::types::WorkspaceCollectionOption;
use crate::workspace::tree::{capped, count_nodes, nodes_counts};

verus! {

/// A saved request file read for display: its id and name (`Untitled
/// request` when it has none), its request, and the id and name of each
/// saved response.
pub open spec fn document_spec(request_id: Seq<char>, file: JsonV) -> Option<JsonV> {
    match field(file, "request"@) {
        None => None,
        Some(request) => Some(JsonV::Object(seq![
            ("id"@, JsonV::Str(request_id)),
            ("name"@, match field(file, "name"@) {
                Some(n) => n,
                None => JsonV::Str("Untitled request"@),
            }),
            ("request"@, request),
            ("savedResponses"@, JsonV::Array(match field_array(file, "savedResponses"@) {
                Some(rs) => response_refs(rs),
                None => seq![],
            })),
        ])),
    }
}

/// The id and name of each saved response.
pub open spec fn response_refs(rs: Seq<JsonV>) -> Seq<JsonV> {
    rs.map_values(|r: JsonV| response_ref(r))
}

/// The id and name of a saved response (`null` where it has none).
pub open spec fn response_ref(r: JsonV) -> JsonV {
    JsonV::Object(seq![
        ("id"@, match field(r, "id"@) { Some(v) => v, None => JsonV::Null }),
        ("name"@, match field(r, "name"@) { Some(v) => v, None => JsonV::Null }),
    ])
}

fn response_ref_exec(r: &Json) -> (out: Json)
    ensures
        out@ == response_ref(r@),
{
    let es = vec![(owned("id"), field_or_null(r, "id")), (owned("name"), field_or_null(r, "name"))];
    proof {
        lemma_entries_view(es@);
        assert(entries_view(es@) =~= seq![
            ("id"@, match field(r@, "id"@) { Some(v) => v, None => JsonV::Null }),
            ("name"@, match field(r@, "name"@) { Some(v) => v, None => JsonV::Null }),
        ]);
    }
    Json::Object(es)
}

/// The document of a saved request file; a file without a request is invalid.
pub fn request_document(request_id: &str, file: &Json) -> (r: Result<Json, String>)
    ensures
        match document_spec(request_id@, file@) {
            Some(d) => match r {
                Ok(v) => v@ == d,
                Err(_) => false,
            },
            None => match r {
                Err(e) => e@ == "Request file is invalid"@,
                Ok(_) => false,
            },
        },
{
    let request = match file.get("request") {
        Some(r) => r.deep_clone(),
        None => return Err(owned("Request file is invalid")),
    };
    let name = match file.get("name") {
        Some(n) => n.deep_clone(),
        None => Json::Str(owned("Untitled request")),
    };
    let mut responses: Vec<Json> = Vec::new();
    match file.get_array("savedResponses") {
        Some(rs) => {
            let mut i: usize = 0;
            while i < rs.len()
                invariant
                    i <= rs.len(),
                    items_view(responses@) == response_refs(items_view(rs@).take(i as int)),
                decreases rs.len() - i,
            {
                proof {
                    lemma_items_view(rs@);
                }
                let ghost before = responses@;
                responses.push(response_ref_exec(&rs[i]));
                proof {
                    assert(responses@.drop_last() == before);
                    assert(response_refs(items_view(rs@).take(i + 1)) =~= response_refs(items_view(rs@).take(i as int)).push(
                        response_ref(json_view(rs@[i as int]))));
                }
                i += 1;
            }
            proof {
                lemma_items_view(rs@);
                assert(items_view(rs@).take(rs.len() as int) == items_view(rs@));
            }
        },
        None => {},
    }
    let ghost saved = JsonV::Array(match field_array(file@, "savedResponses"@) {
        Some(rs) => response_refs(rs),
        None => seq![],
    });
    assert(JsonV::Array(items_view(responses@)) == saved);
    let es = vec![
        (owned("id"), Json::Str(owned(request_id))),
        (owned("name"), name),
        (owned("request"), request),
        (owned("savedResponses"), Json::Array(responses)),
    ];
    proof {
        lemma_entries_view(es@);
        let want = seq![
            ("id"@, JsonV::Str(request_id@)),
            ("name"@, match field(file@, "name"@) { Some(n) => n, None => JsonV::Str("Untitled request"@) }),
            ("request"@, field(file@, "request"@)->Some_0),
            ("savedResponses"@, saved),
        ];
        assert(entries_view(es@) =~= want);
        assert(document_spec(request_id@, file@)->Some_0->Object_0 =~= want);
    }
    Ok(Json::Object(es))
}

/// A request document shown to a client: its request redacted.
pub open spec fn redacted_document_spec(doc: JsonV) -> JsonV {
    match field(doc, "request"@) {
        Some(r) => set_field(doc, "request"@, request_spec(r, seq![])),
        None => doc,
    }
}

/// The request document with its request redacted, when it has one.
pub fn redacted_document(doc: Json) -> (r: Json)
    ensures
        r@ == redacted_document_spec(doc@),
{
    let safe = match doc.get("request") {
        Some(request) => redact_request(request),
        None => return doc,
    };
    with_field(doc, "request", safe)
}

/// The text a search looks in: the request's name, method, URL and path,
/// separated by spaces, in ASCII lowercase.
pub open spec fn haystack_spec(doc: JsonV, path: Seq<char>) -> Seq<char> {
    let request = match field(doc, "request"@) { Some(r) => r, None => JsonV::Null };
    ascii_lower(
        text_or_empty(field_str(doc, "name"@)) + " "@ + text_or_empty(field_str(request, "method"@)) + " "@
            + text_or_empty(field_str(request, "url"@)) + " "@ + path,
    )
}

/// A text, or the empty text.
pub open spec fn text_or_empty(o: Option<Seq<char>>) -> Seq<char> {
    match o {
        Some(s) => s,
        None => seq![],
    }
}

/// A field of the request of a document, `null` when either is missing.
pub open spec fn request_field(doc: JsonV, key: Seq<char>) -> JsonV {
    match field(doc, "request"@) {
        Some(r) => match field(r, key) {
            Some(v) => v,
            None => JsonV::Null,
        },
        None => JsonV::Null,
    }
}

/// A request matches a search when the query is empty or its lowercase
/// form occurs in the haystack.
pub open spec fn search_matches_spec(doc: JsonV, path: Seq<char>, query: Seq<char>) -> bool {
    let needle = ascii_lower(query);
    needle.len() == 0 || seq_contains(haystack_spec(doc, path), needle)
}

fn str_field_chars(v: &Json, key: &str) -> (r: Vec<char>)
    ensures
        r@ == text_or_empty(field_str(v@, key@)),
{
    match v.get_str(key) {
        Some(s) => to_chars(s.as_str()),
        None => Vec::new(),
    }
}

/// Whether a saved request matches a search query.
pub fn search_matches(doc: &Json, path: &str, query: &str) -> (b: bool)
    ensures
        b == search_matches_spec(doc@, path@, query@),
{
    let q = to_chars(query);
    let needle = lower_chars(q.as_slice());
    if needle.len() == 0 {
        return true;
    }
    let null = Json::Null;
    let request: &Json = match doc.get("request") {
        Some(r) => r,
        None => &null,
    };
    let mut h = str_field_chars(doc, "name");
    push_str_chars(&mut h, " ");
    let m = str_field_chars(request, "method");
    push_chars(&mut h, m.as_slice());
    push_str_chars(&mut h, " ");
    let u = str_field_chars(request, "url");
    push_chars(&mut h, u.as_slice());
    push_str_chars(&mut h, " ");
    push_str_chars(&mut h, path);
    let lowered = lower_chars(h.as_slice());
    contains_chars(lowered.as_slice(), needle.as_slice())
}

/// The entry of a search result: where the request is and what it calls.
pub open spec fn search_result_spec(collection_id: Seq<char>, request_id: Seq<char>, path: Seq<char>, doc: JsonV) -> JsonV {
    JsonV::Object(seq![
        ("collectionId"@, JsonV::Str(collection_id)),
        ("method"@, request_field(doc, "method"@)),
        ("name"@, match field(doc, "name"@) { Some(n) => n, None => JsonV::Null }),
        ("path"@, JsonV::Str(path)),
        ("requestId"@, JsonV::Str(request_id)),
        ("url"@, request_field(doc, "url"@)),
    ])
}

/// The search result entry of a matching request.
pub fn search_result(collection_id: &str, request_id: &str, path: &str, doc: &Json) -> (r: Json)
    ensures
        r@ == search_result_spec(collection_id@, request_id@, path@, doc@),
{
    let (method, url) = match doc.get("request") {
        Some(request) => (field_or_null(request, "method"), field_or_null(request, "url")),
        None => (Json::Null, Json::Null),
    };
    let es = vec![
        (owned("collectionId"), Json::Str(owned(collection_id))),
        (owned("method"), method),
        (owned("name"), field_or_null(doc, "name")),
        (owned("path"), Json::Str(owned(path))),
        (owned("requestId"), Json::Str(owned(request_id))),
        (owned("url"), url),
    ];
    proof {
        lemma_entries_view(es@);
        assert(entries_view(es@) =~= seq![
            ("collectionId"@, JsonV::Str(collection_id@)),
            ("method"@, request_field(doc@, "method"@)),
            ("name"@, match field(doc@, "name"@) { Some(n) => n, None => JsonV::Null }),
            ("path"@, JsonV::Str(path@)),
            ("requestId"@, JsonV::Str(request_id@)),
            ("url"@, request_field(doc@, "url"@)),
        ]);
    }
    Json::Object(es)
}

/// The documentation of a collection: its id, its name (`null` when the
/// metadata has none) and the documents of its requests.
pub fn documentation(collection_id: &str, meta: &Json, details: Vec<Json>) -> (r: Json)
    ensures
        r@ == JsonV::Object(seq![
            ("id"@, JsonV::Str(collection_id@)),
            ("name"@, match field(meta@, "name"@) { Some(n) => n, None => JsonV::Null }),
            ("requests"@, JsonV::Array(items_view(details@))),
        ]),
{
    let es = vec![
        (owned("id"), Json::Str(owned(collection_id))),
        (owned("name"), field_or_null(meta, "name")),
        (owned("requests"), Json::Array(details)),
    ];
    proof {
        lemma_entries_view(es@);
        assert(entries_view(es@) =~= seq![
            ("id"@, JsonV::Str(collection_id@)),
            ("name"@, match field(meta@, "name"@) { Some(n) => n, None => JsonV::Null }),
            ("requests"@, JsonV::Array(items_view(details@))),
        ]);
    }
    Json::Object(es)
}

/// The name of a collection from its metadata, `Untitled collection` when it has none.
pub open spec fn collection_name(meta: JsonV) -> Seq<char> {
    match field_str(meta, "name"@) {
        Some(n) => n,
        None => "Untitled collection"@,
    }
}

/// The top-level nodes of a collection tree (none when it has no `root` array).
pub open spec fn tree_root(tree: JsonV) -> Seq<JsonV> {
    match field_array(tree, "root"@) {
        Some(nodes) => nodes,
        None => seq![],
    }
}

/// A collection as listed: its id, name, and the numbers of requests and folders in its tree.
pub open spec fn is_collection_of(o: WorkspaceCollectionOption, id: Seq<char>, meta: JsonV, tree: JsonV) -> bool {
    &&& o.id@ == id
    &&& o.name@ == collection_name(meta)
    &&& o.request_count as nat == capped(nodes_counts(tree_root(tree)).0)
    &&& o.folder_count as nat == capped(nodes_counts(tree_root(tree)).1)
}

/// A collection as listed, from its directory name, metadata and tree.
pub fn collection_option(id: String, meta: &Json, tree: &Json) -> (r: WorkspaceCollectionOption)
    ensures
        is_collection_of(r, id@, meta@, tree@),
{
    let name = match meta.get_str("name") {
        Some(n) => n.clone(),
        None => owned("Untitled collection"),
    };
    let empty: Vec<Json> = Vec::new();
    let nodes: &Vec<Json> = match tree.get_array("root") {
        Some(v) => v,
        None => &empty,
    };
    assert(items_view(empty@) =~= seq![]);
    let (request_count, folder_count) = count_nodes(nodes);
    WorkspaceCollectionOption { id, name, request_count, folder_count }
}

/// Two listed collections are the same.
pub open spec fn same_collection(a: WorkspaceCollectionOption, b: WorkspaceCollectionOption) -> bool {
    a.id@ == b.id@ && a.name@ == b.name@ && a.request_count == b.request_count && a.folder_count == b.folder_count
}

/// The sort keys of collections: the name in ASCII lowercase, then the id.
pub open spec fn collection_keys(items: Seq<WorkspaceCollectionOption>) -> Seq<(Seq<char>, Seq<char>)> {
    items.map_values(|o: WorkspaceCollectionOption| (ascii_lower(o.name@), o.id@))
}

/// The collections sorted by name (ASCII case-insensitively), then by id.
pub fn sort_collections(items: Vec<WorkspaceCollectionOption>) -> (r: Vec<WorkspaceCollectionOption>)
    ensures
        exists|order: Seq<usize>|
            is_stable_sort(collection_keys(items@), order) && r.len() == order.len() && forall|k: int|
                0 <= k < r.len() ==> same_collection(#[trigger] r@[k], items@[order[k] as int]),
{
    let mut names: Vec<Vec<char>> = Vec::new();
    let mut ids: Vec<Vec<char>> = Vec::new();
    let mut i: usize = 0;
    while i < items.len()
        invariant
            i <= items.len(),
            names.len() == i,
            ids.len() == i,
            forall|k: int| 0 <= k < i ==> (#[trigger] names@[k])@ == ascii_lower(items@[k].name@),
            forall|k: int| 0 <= k < i ==> (#[trigger] ids@[k])@ == items@[k].id@,
        decreases items.len() - i,
    {
        let nc = to_chars(items[i].name.as_str());
        names.push(lower_chars(nc.as_slice()));
        ids.push(to_chars(items[i].id.as_str()));
        i += 1;
    }
    let order = stable_order(&names, &ids);
    assert(pair_keys(names@, ids@) =~= collection_keys(items@));
    let mut out: Vec<WorkspaceCollectionOption> = Vec::new();
    let mut k: usize = 0;
    while k < order.len()
        invariant
            k <= order.len(),
            is_stable_sort(collection_keys(items@), order@),
            out.len() == k,
            forall|m: int| 0 <= m < k ==> same_collection(#[trigger] out@[m], items@[order@[m] as int]),
        decreases order.len() - k,
    {
        let idx = order[k];
        let src = &items[idx];
        out.push(WorkspaceCollectionOption {
            id: src.id.clone(),
            name: src.name.clone(),
            request_count: src.request_count,
            folder_count: src.folder_count,
        });
        k += 1;
    }
    out
}


/// One request of a search: added to the results when it matches the
/// query; the search stops once a match brings the results to `limit`.
pub fn search_add(
    results: &mut Vec<Json>,
    collection_id: &str,
    request_id: &str,
    path: &str,
    doc: &Json,
    query: &str,
    limit: usize,
) -> (more: bool)
    ensures
        search_matches_spec(doc@, path@, query@) ==> final(results)@ == old(results)@.push(final(results)@.last())
            && final(results)@.last()@ == search_result_spec(collection_id@, request_id@, path@, doc@),
        !search_matches_spec(doc@, path@, query@) ==> final(results)@ == old(results)@,
        more == !(search_matches_spec(doc@, path@, query@) && final(results)@.len() >= limit),
{
    if search_matches(doc, path, query) {
        let r = search_result(collection_id, request_id, path, doc);
        results.push(r);
        results.len() < limit
    } else {
        true
    }
}

} // verus!
