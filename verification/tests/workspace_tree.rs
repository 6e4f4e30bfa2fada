use tesapi::json::{json_to_string, parse_json_text, Json};
use tesapi::workspace::collections::{
    collection_option, documentation, redacted_document, request_document, search_matches, search_result,
    sort_collections,
};
use tesapi::workspace::edits::{
    collection_result, folder_result, save_result, folder_node, folder_tree, new_collection_meta, new_collection_tree, request_file, request_node, request_path,
    tree_path, tree_with,
};
use tesapi::workspace::tree::{count_nodes, inserted_nodes, request_rows};

fn doc(text: &str) -> Json {
    parse_json_text(text).expect("test document is JSON")
}

fn show(value: &Json) -> String {
    json_to_string(value)
}

fn nodes(text: &str) -> Vec<Json> {
    match doc(text) {
        Json::Array(items) => items,
        _ => panic!("not an array"),
    }
}

const TREE: &str = r#"[
  {"id":"r1","type":"request","name":"List users"},
  {"id":"f1","type":"folder","name":"Admin","children":[
     {"id":"r2","type":"request","name":"Delete"},
     {"id":"f2","type":"folder","name":"Deep","children":[{"id":"r3","type":"request"}]}
  ]},
  {"id":"f3","type":"folder","name":"Empty"}
]"#;

#[test]
fn counts_requests_and_folders() {
    assert_eq!(count_nodes(&nodes(TREE)), (3, 3));
    assert_eq!(count_nodes(&vec![]), (0, 0));
}

#[test]
fn lists_requests_with_their_paths() {
    let rows = request_rows(&nodes(TREE), "");
    assert_eq!(
        rows,
        vec![
            ("r1".to_string(), "".to_string()),
            ("r2".to_string(), "Admin".to_string()),
            ("r3".to_string(), "Admin / Deep".to_string()),
        ]
    );
}

#[test]
fn inserts_into_the_named_folder_only() {
    let node = doc(r#"{"id":"new"}"#);
    let updated = inserted_nodes(&nodes(TREE), "f2", &node).unwrap();
    let text = show(&Json::Array(updated));
    assert!(text.contains(r#"[{"id":"r3","type":"request"},{"id":"new"}]"#));
    assert!(inserted_nodes(&nodes(TREE), "r1", &node).is_none());
    assert!(inserted_nodes(&nodes(TREE), "f3", &node).is_none());
    assert!(inserted_nodes(&nodes(TREE), "missing", &node).is_none());
}

#[test]
fn create_collection_should_write_schema_v2_metadata() {
    let metadata = new_collection_meta("col-1", "QC");
    assert_eq!(show(&metadata), r#"{"id":"col-1","name":"QC","schemaVersion":2}"#);
    assert_eq!(show(&new_collection_tree()), r#"{"root":[],"schemaVersion":2}"#);
}

#[test]
fn create_folder_should_append_root_folder() {
    let tree = new_collection_tree();
    let updated = folder_tree(tree, None, &folder_node("folder-1", "Template")).unwrap();
    let first = match updated.get_array("root") {
        Some(items) => items[0].get_str("name").cloned(),
        None => None,
    };
    assert_eq!(first.as_deref(), Some("Template"));
}

#[test]
fn tree_edits_refuse_invalid_trees_and_missing_folders() {
    let node = request_node("r9", "New");
    assert_eq!(tree_with(doc("{}"), None, &node, "Destination folder not found").unwrap_err(), "Collection tree is invalid");
    let tree = doc(&format!(r#"{{"root":{}}}"#, TREE));
    assert_eq!(
        tree_with(tree, Some("zzz"), &node, "Destination folder not found").unwrap_err(),
        "Destination folder not found"
    );
    let tree = doc(&format!(r#"{{"root":{}}}"#, TREE));
    assert_eq!(folder_tree(tree, Some("../x"), &node).unwrap_err(), "Invalid workspace entity ID");
    let tree = doc(&format!(r#"{{"root":{}}}"#, TREE));
    assert!(tree_with(tree, Some("f1"), &node, "Destination folder not found").is_ok());
}

#[test]
fn request_files_keep_their_other_fields() {
    let fresh = request_file(None, "r1", "  Name ", &doc(r#"{"method":"GET"}"#));
    assert_eq!(show(&fresh), r#"{"id":"r1","name":"Name","request":{"method":"GET"},"savedResponses":[],"schemaVersion":2}"#);
    let kept = request_file(Some(doc(r#"{"savedResponses":[1],"name":"old"}"#)), "r1", "New", &Json::Null);
    assert_eq!(show(&kept), r#"{"name":"New","request":null,"savedResponses":[1]}"#);
    assert_eq!(tree_path("c"), "collections/c/tree.json");
    assert_eq!(request_path("c", "r"), "collections/c/requests/r.json");
}

#[test]
fn search_requests_should_read_spread_request_files() {
    let tree = doc(r#"{"root":[{"id":"r1","type":"request","name":"List users"}]}"#);
    let file = doc(r#"{"name":"List users","request":{"method":"GET","url":"https://example.com/users","headers":[],"params":[],"body":{"type":"none"},"auth":{"type":"none"}}}"#);
    let rows = request_rows(tree.get_array("root").unwrap(), "");
    let mut results = Vec::new();
    for (request_id, path) in rows {
        let document = redacted_document(request_document(&request_id, &file).unwrap());
        if search_matches(&document, &path, "users") {
            results.push(search_result("c1", &request_id, &path, &document));
        }
        if results.len() >= 10 {
            break;
        }
    }
    assert_eq!(results.len(), 1);
}

#[test]
fn request_documents_and_search_results() {
    assert_eq!(request_document("r", &doc(r#"{"name":"x"}"#)).unwrap_err(), "Request file is invalid");
    let d = request_document("r", &doc(r#"{"request":{"url":"u","method":"POST"},"savedResponses":[{"id":"s","name":"n","body":"b"}]}"#)).unwrap();
    assert_eq!(
        show(&d),
        r#"{"id":"r","name":"Untitled request","request":{"method":"POST","url":"u"},"savedResponses":[{"id":"s","name":"n"}]}"#
    );
    assert!(search_matches(&d, "Folder", "post"));
    assert!(search_matches(&d, "Folder", "folder"));
    assert!(search_matches(&d, "Folder", ""));
    assert!(!search_matches(&d, "Folder", "delete"));
    assert_eq!(
        show(&search_result("c", "r", "p", &d)),
        r#"{"collectionId":"c","method":"POST","name":"Untitled request","path":"p","requestId":"r","url":"u"}"#
    );
    assert_eq!(show(&documentation("c", &doc("{}"), vec![])), r#"{"id":"c","name":null,"requests":[]}"#);
}

#[test]
fn collections_are_listed_by_name_then_id() {
    let tree = doc(&format!(r#"{{"root":{}}}"#, TREE));
    let a = collection_option("b".into(), &doc(r#"{"name":"beta"}"#), &tree);
    assert_eq!((a.request_count, a.folder_count), (3, 3));
    let b = collection_option("a".into(), &doc(r#"{"name":"Beta"}"#), &doc("{}"));
    let c = collection_option("z".into(), &doc("{}"), &doc("{}"));
    assert_eq!(c.name, "Untitled collection");
    let sorted = sort_collections(vec![c, a, b]);
    let ids: Vec<&str> = sorted.iter().map(|o| o.id.as_str()).collect();
    assert_eq!(ids, vec!["a", "b", "z"]);
}

#[test]
fn changed_files_name_the_tree_only_when_it_changed() {
    let new = save_result("c1", "req_1", true);
    assert_eq!(new.request_id, "req_1");
    assert_eq!(new.relative_paths, vec!["collections/c1/tree.json", "collections/c1/requests/req_1.json"]);
    let update = save_result("c1", "req_1", false);
    assert_eq!(update.relative_paths, vec!["collections/c1/requests/req_1.json"]);
    let collection = collection_result("col_1");
    assert_eq!(collection.id, "col_1");
    assert_eq!(collection.relative_paths, vec!["collections/col_1/collection.json", "collections/col_1/tree.json"]);
    let folder = folder_result("col_1", "folder_1");
    assert_eq!(folder.id, "folder_1");
    assert_eq!(folder.relative_paths, vec!["collections/col_1/tree.json"]);
}
