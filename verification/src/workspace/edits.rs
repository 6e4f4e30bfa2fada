use vstd::prelude::*;

use crate::json::{entries_view, field_array, items_view, lemma_entries_view, lemma_items_view, set_field, with_field, Json, JsonNumber, JsonV, NumberV};
use crate::text::{from_chars, owned, push_str_chars, strings_of, to_chars, trim, trim_spec};
use crate::workspace::tree::{insert_nodes, inserted_nodes};
use crate::workspace::{is_safe_id, safe_id};

verus! {

/// The tree node of a saved request.
pub open spec fn request_node_spec(id: Seq<char>, name: Seq<char>) -> JsonV {
    JsonV::Object(seq![("id"@, JsonV::Str(id)), ("name"@, JsonV::Str(name)), ("type"@, JsonV::Str("request"@))])
}

/// The tree node of a saved request.
pub fn request_node(id: &str, name: &str) -> (r: Json)
    ensures
        r@ == request_node_spec(id@, name@),
{
    let es = vec![
        (owned("id"), Json::Str(owned(id))),
        (owned("name"), Json::Str(owned(name))),
        (owned("type"), Json::Str(owned("request"))),
    ];
    proof {
        lemma_entries_view(es@);
        assert(entries_view(es@) =~= seq![("id"@, JsonV::Str(id@)), ("name"@, JsonV::Str(name@)), ("type"@, JsonV::Str("request"@))]);
    }
    Json::Object(es)
}

/// The tree node of a new, empty folder.
pub open spec fn folder_node_spec(id: Seq<char>, name: Seq<char>) -> JsonV {
    JsonV::Object(seq![
        ("children"@, JsonV::Array(seq![])),
        ("id"@, JsonV::Str(id)),
        ("name"@, JsonV::Str(name)),
        ("type"@, JsonV::Str("folder"@)),
    ])
}

/// The tree node of a new, empty folder.
pub fn folder_node(id: &str, name: &str) -> (r: Json)
    ensures
        r@ == folder_node_spec(id@, name@),
{
    let empty: Vec<Json> = Vec::new();
    assert(items_view(empty@) =~= seq![]);
    let es = vec![
        (owned("children"), Json::Array(empty)),
        (owned("id"), Json::Str(owned(id))),
        (owned("name"), Json::Str(owned(name))),
        (owned("type"), Json::Str(owned("folder"))),
    ];
    proof {
        lemma_entries_view(es@);
        assert(entries_view(es@) =~= seq![
            ("children"@, JsonV::Array(seq![])),
            ("id"@, JsonV::Str(id@)),
            ("name"@, JsonV::Str(name@)),
            ("type"@, JsonV::Str("folder"@)),
        ]);
    }
    Json::Object(es)
}

/// A collection tree with a node added: at the top level, or in the named
/// folder; a tree without a `root` array is invalid, and a folder that is
/// not found gives `not_found`.
pub open spec fn tree_with_spec(
    tree: JsonV,
    folder_id: Option<Seq<char>>,
    node: JsonV,
    not_found: Seq<char>,
) -> Result<JsonV, Seq<char>> {
    match field_array(tree, "root"@) {
        None => Err("Collection tree is invalid"@),
        Some(nodes) => match folder_id {
            None => Ok(set_field(tree, "root"@, JsonV::Array(nodes.push(node)))),
            Some(f) => match insert_nodes(nodes, f, node) {
                Some(n2) => Ok(set_field(tree, "root"@, JsonV::Array(n2))),
                None => Err(not_found),
            },
        },
    }
}

fn copy_items(items: &Vec<Json>) -> (r: Vec<Json>)
    ensures
        items_view(r@) == items_view(items@),
{
    let mut v: Vec<Json> = Vec::new();
    let mut k: usize = 0;
    while k < items.len()
        invariant
            k <= items.len(),
            items_view(v@) == items_view(items@.take(k as int)),
        decreases items.len() - k,
    {
        let ghost before = v@;
        v.push(items[k].deep_clone());
        proof {
            assert(v@.drop_last() == before);
            assert(items@.take(k + 1).drop_last() == items@.take(k as int));
        }
        k += 1;
    }
    assert(items@.take(items.len() as int) == items@);
    v
}

/// The collection tree with a node added at the top level or in a folder.
pub fn tree_with(tree: Json, folder_id: Option<&str>, node: &Json, not_found: &str) -> (r: Result<Json, String>)
    ensures
        match tree_with_spec(tree@, match folder_id { Some(f) => Some(f@), None => None }, node@, not_found@) {
            Ok(t) => match r {
                Ok(v) => v@ == t,
                Err(_) => false,
            },
            Err(m) => match r {
                Err(e) => e@ == m,
                Ok(_) => false,
            },
        },
{
    let nodes = match tree.get_array("root") {
        Some(n) => copy_items(n),
        None => return Err(owned("Collection tree is invalid")),
    };
    let updated = match folder_id {
        None => {
            let mut n = nodes;
            let ghost before = n@;
            n.push(node.deep_clone());
            proof {
                assert(n@.drop_last() == before);
            }
            n
        },
        Some(f) => match inserted_nodes(&nodes, f, node) {
            Some(n2) => n2,
            None => return Err(owned(not_found)),
        },
    };
    Ok(with_field(tree, "root", Json::Array(updated)))
}

/// A collection tree with a new folder added: at the top level, or in the
/// parent folder, whose id must be a safe entity id.
pub open spec fn folder_tree_spec(tree: JsonV, parent: Option<Seq<char>>, node: JsonV) -> Result<JsonV, Seq<char>> {
    match field_array(tree, "root"@) {
        None => Err("Collection tree is invalid"@),
        Some(_) => match parent {
            Some(p) => if !is_safe_id(p) {
                Err("Invalid workspace entity ID"@)
            } else {
                tree_with_spec(tree, parent, node, "Parent folder not found"@)
            },
            None => tree_with_spec(tree, parent, node, "Parent folder not found"@),
        },
    }
}

/// The collection tree with a new folder added.
pub fn folder_tree(tree: Json, parent: Option<&str>, node: &Json) -> (r: Result<Json, String>)
    ensures
        match folder_tree_spec(tree@, match parent { Some(p) => Some(p@), None => None }, node@) {
            Ok(t) => match r {
                Ok(v) => v@ == t,
                Err(_) => false,
            },
            Err(m) => match r {
                Err(e) => e@ == m,
                Ok(_) => false,
            },
        },
{
    if tree.get_array("root").is_none() {
        return Err(owned("Collection tree is invalid"));
    }
    match parent {
        Some(p) => match safe_id(p) {
            Ok(_) => {},
            Err(e) => return Err(e),
        },
        None => {},
    }
    tree_with(tree, parent, node, "Parent folder not found")
}

/// A new request file: its schema version, id and no saved responses.
pub open spec fn new_request_file(id: Seq<char>) -> JsonV {
    JsonV::Object(seq![
        ("id"@, JsonV::Str(id)),
        ("savedResponses"@, JsonV::Array(seq![])),
        ("schemaVersion"@, JsonV::Number(NumberV::PosInt(2))),
    ])
}

/// The request file after a save: the existing file (or a new one), with
/// the trimmed name and the request set.
pub open spec fn request_file_spec(existing: Option<JsonV>, id: Seq<char>, name: Seq<char>, request: JsonV) -> JsonV {
    let base = match existing {
        Some(JsonV::Null) => JsonV::Object(seq![]),
        Some(f) => f,
        None => new_request_file(id),
    };
    set_field(set_field(base, "name"@, JsonV::Str(trim_spec(name))), "request"@, request)
}

/// The content of a saved request file. An existing file must be an object
/// (or `null`) for its fields to be set.
pub fn request_file(existing: Option<Json>, id: &str, name: &str, request: &Json) -> (r: Json)
    requires
        match existing {
            Some(f) => f@ is Object || f@ is Null,
            None => true,
        },
    ensures
        r@ == request_file_spec(match existing { Some(f) => Some(f@), None => None }, id@, name@, request@),
{
    let base = match existing {
        Some(Json::Null) => {
            let none: Vec<(String, Json)> = Vec::new();
            assert(entries_view(none@) =~= seq![]);
            Json::Object(none)
        },
        Some(f) => f,
        None => {
            let empty: Vec<Json> = Vec::new();
            assert(items_view(empty@) =~= seq![]);
            let es = vec![
                (owned("id"), Json::Str(owned(id))),
                (owned("savedResponses"), Json::Array(empty)),
                (owned("schemaVersion"), Json::Number(JsonNumber::PosInt(2))),
            ];
            proof {
                lemma_entries_view(es@);
                        assert(entries_view(es@) =~= seq![
                    ("id"@, JsonV::Str(id@)),
                    ("savedResponses"@, JsonV::Array(seq![])),
                    ("schemaVersion"@, JsonV::Number(NumberV::PosInt(2))),
                ]);
            }
            Json::Object(es)
        },
    };
    let named = with_field(base, "name", Json::Str(trim(name)));
    with_field(named, "request", request.deep_clone())
}

/// A new collection's tree: schema version 2 and no nodes.
pub fn new_collection_tree() -> (r: Json)
    ensures
        r@ == JsonV::Object(seq![("root"@, JsonV::Array(seq![])), ("schemaVersion"@, JsonV::Number(NumberV::PosInt(2)))]),
{
    let empty: Vec<Json> = Vec::new();
    assert(items_view(empty@) =~= seq![]);
    let es = vec![(owned("root"), Json::Array(empty)), (owned("schemaVersion"), Json::Number(JsonNumber::PosInt(2)))];
    proof {
        lemma_entries_view(es@);
        assert(entries_view(es@) =~= seq![("root"@, JsonV::Array(seq![])), ("schemaVersion"@, JsonV::Number(NumberV::PosInt(2)))]);
    }
    Json::Object(es)
}

/// A new collection's metadata: schema version 2, its id and name.
pub fn new_collection_meta(id: &str, name: &str) -> (r: Json)
    ensures
        r@ == JsonV::Object(seq![
            ("id"@, JsonV::Str(id@)),
            ("name"@, JsonV::Str(name@)),
            ("schemaVersion"@, JsonV::Number(NumberV::PosInt(2))),
        ]),
{
    let es = vec![
        (owned("id"), Json::Str(owned(id))),
        (owned("name"), Json::Str(owned(name))),
        (owned("schemaVersion"), Json::Number(JsonNumber::PosInt(2))),
    ];
    proof {
        lemma_entries_view(es@);
        assert(entries_view(es@) =~= seq![
            ("id"@, JsonV::Str(id@)),
            ("name"@, JsonV::Str(name@)),
            ("schemaVersion"@, JsonV::Number(NumberV::PosInt(2))),
        ]);
    }
    Json::Object(es)
}

/// The workspace-relative path of a collection's tree.
pub fn tree_path(collection_id: &str) -> (r: String)
    ensures
        r@ == "collections/"@ + collection_id@ + "/tree.json"@,
{
    let mut p = to_chars("collections/");
    push_str_chars(&mut p, collection_id);
    push_str_chars(&mut p, "/tree.json");
    from_chars(p.as_slice())
}

/// The workspace-relative path of a collection's metadata.
pub fn collection_meta_path(collection_id: &str) -> (r: String)
    ensures
        r@ == "collections/"@ + collection_id@ + "/collection.json"@,
{
    let mut p = to_chars("collections/");
    push_str_chars(&mut p, collection_id);
    push_str_chars(&mut p, "/collection.json");
    from_chars(p.as_slice())
}

/// The workspace-relative path of a saved request's file.
pub fn request_path(collection_id: &str, request_id: &str) -> (r: String)
    ensures
        r@ == "collections/"@ + collection_id@ + "/requests/"@ + request_id@ + ".json"@,
{
    let mut p = to_chars("collections/");
    push_str_chars(&mut p, collection_id);
    push_str_chars(&mut p, "/requests/");
    push_str_chars(&mut p, request_id);
    push_str_chars(&mut p, ".json");
    from_chars(p.as_slice())
}


/// A saved request and the workspace files that the save changed.
pub struct SaveDraftResult {
    pub request_id: String,
    pub relative_paths: Vec<String>,
}

/// A created collection or folder and the workspace files that changed.
pub struct CreateEntityResult {
    pub id: String,
    pub relative_paths: Vec<String>,
}

pub open spec fn tree_path_spec(collection_id: Seq<char>) -> Seq<char> {
    "collections/"@ + collection_id + "/tree.json"@
}

pub open spec fn request_path_spec(collection_id: Seq<char>, request_id: Seq<char>) -> Seq<char> {
    "collections/"@ + collection_id + "/requests/"@ + request_id + ".json"@
}

/// What a save changed: the collection's tree when the request is new (it
/// was added to the tree), then the request's file.
pub fn save_result(collection_id: &str, request_id: &str, added_to_tree: bool) -> (r: SaveDraftResult)
    ensures
        r.request_id@ == request_id@,
        strings_of(r.relative_paths@) == if added_to_tree {
            seq![tree_path_spec(collection_id@), request_path_spec(collection_id@, request_id@)]
        } else {
            seq![request_path_spec(collection_id@, request_id@)]
        },
{
    let mut relative_paths: Vec<String> = Vec::new();
    if added_to_tree {
        relative_paths.push(tree_path(collection_id));
    }
    relative_paths.push(request_path(collection_id, request_id));
    proof {
        if added_to_tree {
            assert(strings_of(relative_paths@) =~= seq![tree_path_spec(collection_id@), request_path_spec(collection_id@, request_id@)]);
        } else {
            assert(strings_of(relative_paths@) =~= seq![request_path_spec(collection_id@, request_id@)]);
        }
    }
    SaveDraftResult { request_id: owned(request_id), relative_paths }
}

/// What creating a collection wrote: its metadata and its tree.
pub fn collection_result(id: &str) -> (r: CreateEntityResult)
    ensures
        r.id@ == id@,
        strings_of(r.relative_paths@) == seq!["collections/"@ + id@ + "/collection.json"@, tree_path_spec(id@)],
{
    let relative_paths = vec![collection_meta_path(id), tree_path(id)];
    assert(strings_of(relative_paths@) =~= seq!["collections/"@ + id@ + "/collection.json"@, tree_path_spec(id@)]);
    CreateEntityResult { id: owned(id), relative_paths }
}

/// What creating a folder wrote: the collection's tree.
pub fn folder_result(collection_id: &str, id: &str) -> (r: CreateEntityResult)
    ensures
        r.id@ == id@,
        strings_of(r.relative_paths@) == seq![tree_path_spec(collection_id@)],
{
    let relative_paths = vec![tree_path(collection_id)];
    assert(strings_of(relative_paths@) =~= seq![tree_path_spec(collection_id@)]);
    CreateEntityResult { id: owned(id), relative_paths }
}

} // verus!
