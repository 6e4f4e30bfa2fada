use vstd::prelude::*;

use crate::json::{entries_view, field, field_str, find_entry, items_view, json_view, lemma_entries_view, lemma_items_view, lemma_obj_index_lookup, obj_index, obj_insert, obj_lookup, obj_set, Json, JsonV};
use crate::text::{from_chars, owned, push_chars, push_str_chars, str_eq, to_chars};

verus! {

/// The value found by a lookup is smaller than the entries it was found in.
pub proof fn lemma_lookup_smaller(es: Seq<(Seq<char>, JsonV)>, key: Seq<char>)
    ensures
        match obj_lookup(es, key) {
            Some(v) => decreases_to!(es => v),
            None => true,
        },
    decreases es.len(),
{
    if es.len() > 0 {
        if es[0].0 == key {
            assert(decreases_to!(es => es[0]));
            assert(decreases_to!(es[0] => es[0].1));
        } else {
            lemma_lookup_smaller(es.drop_first(), key);
            assert(es.drop_first() == es.subrange(1, es.len() as int));
            assert(decreases_to!(es => es.drop_first()));
        }
    }
}

/// The children of a tree node: its `children` array, when it has one.
pub open spec fn children_of(item: JsonV) -> Option<Seq<JsonV>> {
    match item {
        JsonV::Object(es) => match obj_lookup(es, "children"@) {
            Some(JsonV::Array(kids)) => Some(kids),
            _ => None,
        },
        _ => None,
    }
}

pub proof fn lemma_children_smaller(item: JsonV)
    ensures
        match children_of(item) {
            Some(kids) => decreases_to!(item => kids),
            None => true,
        },
{
    if let JsonV::Object(es) = item {
        lemma_lookup_smaller(es, "children"@);
        if let Some(JsonV::Array(kids)) = obj_lookup(es, "children"@) {
            assert(decreases_to!(item => es));
        }
    }
}

/// A node is a folder when its `type` is `folder`.
pub open spec fn is_folder(item: JsonV) -> bool {
    field_str(item, "type"@) == Some("folder"@)
}

/// The folder with the given id that a new node may go into.
pub open spec fn is_target(item: JsonV, folder_id: Seq<char>) -> bool {
    field_str(item, "id"@) == Some(folder_id) && is_folder(item)
}

/// A node with its `children` replaced.
pub open spec fn with_children(item: JsonV, kids: Seq<JsonV>) -> JsonV {
    match item {
        JsonV::Object(es) => JsonV::Object(obj_insert(es, "children"@, JsonV::Array(kids))),
        _ => item,
    }
}

/// A node after `node` is added to the folder `folder_id` in it: appended
/// to its children when it is that folder, else added below the first of
/// its children that takes it; `None` when no folder takes it.
pub open spec fn insert_item(item: JsonV, folder_id: Seq<char>, node: JsonV) -> Option<JsonV>
    decreases item,
{
    match children_of(item) {
        Some(kids) => if is_target(item, folder_id) {
            Some(with_children(item, kids.push(node)))
        } else {
            proof {
                lemma_children_smaller(item);
            }
            match insert_nodes(kids, folder_id, node) {
                Some(k2) => Some(with_children(item, k2)),
                None => None,
            }
        },
        None => None,
    }
}

/// The nodes after `node` is added to the folder `folder_id`, below the
/// first node that takes it; `None` when none does.
pub open spec fn insert_nodes(nodes: Seq<JsonV>, folder_id: Seq<char>, node: JsonV) -> Option<Seq<JsonV>>
    decreases nodes,
{
    if nodes.len() == 0 {
        None
    } else {
        proof {
            assert(nodes.drop_last() == nodes.subrange(0, nodes.len() - 1));
        }
        match insert_nodes(nodes.drop_last(), folder_id, node) {
            Some(p) => Some(p.push(nodes.last())),
            None => match insert_item(nodes.last(), folder_id, node) {
                Some(x) => Some(nodes.drop_last().push(x)),
                None => None,
            },
        }
    }
}

pub proof fn lemma_insert_extend(nodes: Seq<JsonV>, folder_id: Seq<char>, node: JsonV, n: int)
    requires
        0 <= n <= nodes.len(),
        insert_nodes(nodes.take(n), folder_id, node) is Some,
    ensures
        insert_nodes(nodes, folder_id, node) == Some(
            insert_nodes(nodes.take(n), folder_id, node)->Some_0 + nodes.skip(n),
        ),
    decreases nodes.len() - n,
{
    if n == nodes.len() {
        assert(nodes.take(n) == nodes);
        assert(nodes.skip(n) =~= seq![]);
        assert(insert_nodes(nodes.take(n), folder_id, node)->Some_0 + nodes.skip(n) =~= insert_nodes(nodes.take(n), folder_id, node)->Some_0);
    } else {
        assert(nodes.take(n + 1).drop_last() == nodes.take(n));
        assert(nodes.take(n + 1).last() == nodes[n]);
        let p = insert_nodes(nodes.take(n), folder_id, node)->Some_0;
        assert(insert_nodes(nodes.take(n + 1), folder_id, node) == Some(p.push(nodes[n])));
        lemma_insert_extend(nodes, folder_id, node, n + 1);
        assert(p.push(nodes[n]) + nodes.skip(n + 1) =~= p + nodes.skip(n));
    }
}

fn children_index(entries: &Vec<(String, Json)>) -> (r: Option<usize>)
    ensures
        match r {
            Some(i) => i < entries.len() && obj_lookup(entries_view(entries@), "children"@) == Some(entries@[i as int].1@)
                && entries@[i as int].1 is Array && obj_index(entries_view(entries@), "children"@) == Some(i as int),
            None => match obj_lookup(entries_view(entries@), "children"@) {
                Some(JsonV::Array(_)) => false,
                _ => true,
            },
        },
{
    proof {
        lemma_entries_view(entries@);
        lemma_obj_index_lookup(entries_view(entries@), "children"@);
    }
    match find_entry(entries, "children") {
        Some(i) => match &entries[i].1 {
            Json::Array(_) => Some(i),
            _ => None,
        },
        None => None,
    }
}

/// A copy of a node with `node` added to the folder `folder_id` in it.
pub fn inserted_item(item: &Json, folder_id: &str, node: &Json) -> (r: Option<Json>)
    ensures
        match r {
            Some(x) => insert_item(item@, folder_id@, node@) == Some(x@),
            None => insert_item(item@, folder_id@, node@) is None,
        },
    decreases item,
{
    let entries = match item {
        Json::Object(entries) => entries,
        _ => return None,
    };
    let idx = match children_index(entries) {
        Some(i) => i,
        None => return None,
    };
    let kids = match &entries[idx].1 {
        Json::Array(kids) => kids,
        _ => return None,
    };
    let target = match (item.get_str("id"), item.get_str("type")) {
        (Some(id), Some(t)) => str_eq(id.as_str(), folder_id) && str_eq(t.as_str(), "folder"),
        _ => false,
    };
    let new_kids = if target {
        let mut v: Vec<Json> = Vec::new();
        let mut k: usize = 0;
        while k < kids.len()
            invariant
                k <= kids.len(),
                items_view(v@) == items_view(kids@.take(k as int)),
            decreases kids.len() - k,
        {
            let ghost before = v@;
            v.push(kids[k].deep_clone());
            proof {
                assert(v@.drop_last() == before);
                assert(kids@.take(k + 1).drop_last() == kids@.take(k as int));
            }
            k += 1;
        }
        assert(kids@.take(kids.len() as int) == kids@);
        let ghost before = v@;
        v.push(node.deep_clone());
        assert(v@.drop_last() == before);
        v
    } else {
        proof {
            assert(decreases_to!(*item => (*item)->Object_0));
            assert(decreases_to!(*entries => entries@));
            assert(decreases_to!(entries@ => entries@[idx as int]));
            assert(decreases_to!(entries@[idx as int] => entries@[idx as int].1));
        }
        match inserted_nodes(kids, folder_id, node) {
            Some(k2) => k2,
            None => return None,
        }
    };
    let mut es: Vec<(String, Json)> = Vec::new();
    let mut j: usize = 0;
    while j < entries.len()
        invariant
            j <= entries.len(),
            entries_view(es@) == entries_view(entries@.take(j as int)),
        decreases entries.len() - j,
    {
        let ghost before = es@;
        es.push((entries[j].0.clone(), entries[j].1.deep_clone()));
        proof {
            assert(es@.drop_last() == before);
            assert(entries@.take(j + 1).drop_last() == entries@.take(j as int));
        }
        j += 1;
    }
    assert(entries@.take(entries.len() as int) == entries@);
    obj_set(&mut es, "children", Json::Array(new_kids));
    Some(Json::Object(es))
}

/// A copy of the nodes with `node` added to the folder `folder_id`, when
/// some node takes it.
pub fn inserted_nodes(nodes: &Vec<Json>, folder_id: &str, node: &Json) -> (r: Option<Vec<Json>>)
    ensures
        match r {
            Some(v) => insert_nodes(items_view(nodes@), folder_id@, node@) == Some(items_view(v@)),
            None => insert_nodes(items_view(nodes@), folder_id@, node@) is None,
        },
    decreases nodes,
{
    let ghost all = items_view(nodes@);
    proof {
        lemma_items_view(nodes@);
        assert(all.take(0) =~= seq![]);
    }
    let mut i: usize = 0;
    while i < nodes.len()
        invariant
            i <= nodes.len(),
            all == items_view(nodes@),
            all.len() == nodes.len(),
            forall|k: int| 0 <= k < nodes.len() ==> #[trigger] all[k] == json_view(nodes@[k]),
            insert_nodes(all.take(i as int), folder_id@, node@) is None,
        decreases nodes.len() - i,
    {
        proof {
            assert(decreases_to!(*nodes => nodes@));
            assert(decreases_to!(nodes@ => nodes@[i as int]));
            assert(all.take(i + 1).drop_last() == all.take(i as int));
            assert(all.take(i + 1).last() == all[i as int]);
        }
        match inserted_item(&nodes[i], folder_id, node) {
            Some(x) => {
                let mut out: Vec<Json> = Vec::new();
                let mut k: usize = 0;
                while k < nodes.len()
                    invariant
                        k <= nodes.len(),
                        i < nodes.len(),
                        all == items_view(nodes@),
                        all.len() == nodes.len(),
                        forall|m: int| 0 <= m < nodes.len() ==> #[trigger] all[m] == json_view(nodes@[m]),
                        forall|m: int| 0 <= m < k ==> json_view(#[trigger] out@[m]) == (if m == i { x@ } else { all[m] }),
                        out.len() == k,
                    decreases nodes.len() - k,
                {
                    let ghost before = out@;
                    if k == i {
                        out.push(x.deep_clone());
                    } else {
                        out.push(nodes[k].deep_clone());
                    }
                    proof {
                        assert(out@.drop_last() == before);
                        assert forall|m: int| 0 <= m < k + 1 implies json_view(#[trigger] out@[m]) == (if m == i { x@ } else { all[m] }) by {
                            if m < k {
                                assert(out@[m] == before[m]);
                            }
                        }
                    }
                    k += 1;
                }
                proof {
                    let p = all.take(i as int).push(x@);
                    assert(insert_nodes(all.take(i + 1), folder_id@, node@) == Some(p));
                    lemma_insert_extend(all, folder_id@, node@, i + 1);
                    lemma_items_view(out@);
                    assert(items_view(out@) =~= p + all.skip(i + 1));
                }
                return Some(out);
            },
            None => {},
        }
        i += 1;
    }
    proof {
        assert(all.take(nodes.len() as int) == all);
    }
    None
}

/// The number of requests and of folders in a node and below it: a
/// folder counts itself and its children, anything else is a request.
pub open spec fn node_counts(item: JsonV) -> (nat, nat)
    decreases item,
{
    if is_folder(item) {
        match children_of(item) {
            Some(kids) => {
                proof {
                    lemma_children_smaller(item);
                }
                let c = nodes_counts(kids);
                (c.0, c.1 + 1)
            },
            None => (0, 1),
        }
    } else {
        (1, 0)
    }
}

/// The number of requests and of folders in the nodes and below them.
pub open spec fn nodes_counts(nodes: Seq<JsonV>) -> (nat, nat)
    decreases nodes,
{
    if nodes.len() == 0 {
        (0, 0)
    } else {
        proof {
            assert(nodes.drop_last() == nodes.subrange(0, nodes.len() - 1));
        }
        let a = nodes_counts(nodes.drop_last());
        let b = node_counts(nodes.last());
        (a.0 + b.0, a.1 + b.1)
    }
}

/// A count that stops at the largest `usize`.
pub open spec fn capped(n: nat) -> nat {
    if n > usize::MAX { usize::MAX as nat } else { n }
}

fn is_folder_exec(item: &Json) -> (b: bool)
    ensures
        b == is_folder(item@),
{
    match item.get_str("type") {
        Some(t) => str_eq(t.as_str(), "folder"),
        None => false,
    }
}

/// The number of requests and of folders in a node and below it.
pub fn count_item(item: &Json) -> (r: (usize, usize))
    ensures
        r.0 as nat == capped(node_counts(item@).0),
        r.1 as nat == capped(node_counts(item@).1),
    decreases item,
{
    if !is_folder_exec(item) {
        return (1, 0);
    }
    let entries = match item {
        Json::Object(entries) => entries,
        _ => return (0, 1),
    };
    let idx = match children_index(entries) {
        Some(i) => i,
        None => return (0, 1),
    };
    let kids = match &entries[idx].1 {
        Json::Array(kids) => kids,
        _ => return (0, 1),
    };
    proof {
        assert(decreases_to!(*item => (*item)->Object_0));
        assert(decreases_to!(*entries => entries@));
        assert(decreases_to!(entries@ => entries@[idx as int]));
        assert(decreases_to!(entries@[idx as int] => entries@[idx as int].1));
    }
    let c = count_nodes(kids);
    (c.0, c.1.saturating_add(1))
}

/// The number of requests and of folders in the nodes and below them.
pub fn count_nodes(nodes: &Vec<Json>) -> (r: (usize, usize))
    ensures
        r.0 as nat == capped(nodes_counts(items_view(nodes@)).0),
        r.1 as nat == capped(nodes_counts(items_view(nodes@)).1),
    decreases nodes,
{
    let ghost all = items_view(nodes@);
    proof {
        lemma_items_view(nodes@);
        assert(all.take(0) =~= seq![]);
    }
    let mut requests: usize = 0;
    let mut folders: usize = 0;
    let mut i: usize = 0;
    while i < nodes.len()
        invariant
            i <= nodes.len(),
            all == items_view(nodes@),
            all.len() == nodes.len(),
            forall|k: int| 0 <= k < nodes.len() ==> #[trigger] all[k] == json_view(nodes@[k]),
            requests as nat == capped(nodes_counts(all.take(i as int)).0),
            folders as nat == capped(nodes_counts(all.take(i as int)).1),
        decreases nodes.len() - i,
    {
        proof {
            assert(decreases_to!(*nodes => nodes@));
            assert(decreases_to!(nodes@ => nodes@[i as int]));
            assert(all.take(i + 1).drop_last() == all.take(i as int));
            assert(all.take(i + 1).last() == all[i as int]);
        }
        let c = count_item(&nodes[i]);
        requests = requests.saturating_add(c.0);
        folders = folders.saturating_add(c.1);
        i += 1;
    }
    proof {
        assert(all.take(nodes.len() as int) == all);
    }
    (requests, folders)
}

/// The name of a node, `Untitled` when it has none.
pub open spec fn node_label(item: JsonV) -> Seq<char> {
    match field_str(item, "name"@) {
        Some(n) => n,
        None => "Untitled"@,
    }
}

/// The path of a folder below `prefix`: its name, after the prefix and ` / `.
pub open spec fn sub_path(prefix: Seq<char>, name: Seq<char>) -> Seq<char> {
    if prefix.len() == 0 {
        name
    } else {
        prefix + " / "@ + name
    }
}

/// The requests in a node and below it, each with the path of folders
/// that holds it.
pub open spec fn item_rows(item: JsonV, prefix: Seq<char>) -> Seq<(Seq<char>, Seq<char>)>
    decreases item,
{
    if is_folder(item) {
        match children_of(item) {
            Some(kids) => {
                proof {
                    lemma_children_smaller(item);
                }
                nodes_rows(kids, sub_path(prefix, node_label(item)))
            },
            None => seq![],
        }
    } else {
        match field_str(item, "id"@) {
            Some(id) => seq![(id, prefix)],
            None => seq![],
        }
    }
}

/// The requests in the nodes and below them, in tree order, each with its path.
pub open spec fn nodes_rows(nodes: Seq<JsonV>, prefix: Seq<char>) -> Seq<(Seq<char>, Seq<char>)>
    decreases nodes,
{
    if nodes.len() == 0 {
        seq![]
    } else {
        proof {
            assert(nodes.drop_last() == nodes.subrange(0, nodes.len() - 1));
        }
        nodes_rows(nodes.drop_last(), prefix) + item_rows(nodes.last(), prefix)
    }
}

pub open spec fn rows_view(v: Seq<(String, String)>) -> Seq<(Seq<char>, Seq<char>)> {
    v.map_values(|p: (String, String)| (p.0@, p.1@))
}

fn append_rows(out: &mut Vec<(String, String)>, rows: Vec<(String, String)>)
    ensures
        rows_view(final(out)@) == rows_view(old(out)@) + rows_view(rows@),
{
    let mut k: usize = 0;
    let ghost start = out@;
    while k < rows.len()
        invariant
            k <= rows.len(),
            rows_view(out@) == rows_view(start) + rows_view(rows@.take(k as int)),
        decreases rows.len() - k,
    {
        let ghost before = out@;
        out.push((rows[k].0.clone(), rows[k].1.clone()));
        proof {
            assert(rows_view(out@) =~= rows_view(before).push((rows@[k as int].0@, rows@[k as int].1@)));
            assert(rows_view(rows@.take(k + 1)) =~= rows_view(rows@.take(k as int)).push((rows@[k as int].0@, rows@[k as int].1@)));
        }
        k += 1;
    }
    assert(rows@.take(rows.len() as int) == rows@);
}

/// The requests in a node and below it, with their paths.
pub fn item_requests(item: &Json, prefix: &str) -> (r: Vec<(String, String)>)
    ensures
        rows_view(r@) == item_rows(item@, prefix@),
    decreases item,
{
    if !is_folder_exec(item) {
        return match item.get_str("id") {
            Some(id) => {
                let v = vec![(id.clone(), owned(prefix))];
                assert(rows_view(v@) =~= seq![(id@, prefix@)]);
                v
            },
            None => {
                let v: Vec<(String, String)> = Vec::new();
                assert(rows_view(v@) =~= seq![]);
                v
            },
        };
    }
    let empty: Vec<(String, String)> = Vec::new();
    assert(rows_view(empty@) =~= seq![]);
    let entries = match item {
        Json::Object(entries) => entries,
        _ => return empty,
    };
    let idx = match children_index(entries) {
        Some(i) => i,
        None => return empty,
    };
    let kids = match &entries[idx].1 {
        Json::Array(kids) => kids,
        _ => return empty,
    };
    let name: String = match item.get_str("name") {
        Some(n) => n.clone(),
        None => owned("Untitled"),
    };
    let path = if prefix.is_empty() {
        name
    } else {
        let mut p = to_chars(prefix);
        push_str_chars(&mut p, " / ");
        push_str_chars(&mut p, name.as_str());
        from_chars(p.as_slice())
    };
    proof {
        assert(decreases_to!(*item => (*item)->Object_0));
        assert(decreases_to!(*entries => entries@));
        assert(decreases_to!(entries@ => entries@[idx as int]));
        assert(decreases_to!(entries@[idx as int] => entries@[idx as int].1));
    }
    request_rows(kids, path.as_str())
}

/// The requests in the nodes and below them, in tree order, with their paths.
pub fn request_rows(nodes: &Vec<Json>, prefix: &str) -> (r: Vec<(String, String)>)
    ensures
        rows_view(r@) == nodes_rows(items_view(nodes@), prefix@),
    decreases nodes,
{
    let ghost all = items_view(nodes@);
    proof {
        lemma_items_view(nodes@);
        assert(all.take(0) =~= seq![]);
    }
    let mut out: Vec<(String, String)> = Vec::new();
    assert(rows_view(out@) =~= seq![]);
    let mut i: usize = 0;
    while i < nodes.len()
        invariant
            i <= nodes.len(),
            all == items_view(nodes@),
            all.len() == nodes.len(),
            forall|k: int| 0 <= k < nodes.len() ==> #[trigger] all[k] == json_view(nodes@[k]),
            rows_view(out@) == nodes_rows(all.take(i as int), prefix@),
        decreases nodes.len() - i,
    {
        proof {
            assert(decreases_to!(*nodes => nodes@));
            assert(decreases_to!(nodes@ => nodes@[i as int]));
            assert(all.take(i + 1).drop_last() == all.take(i as int));
            assert(all.take(i + 1).last() == all[i as int]);
        }
        let rows = item_requests(&nodes[i], prefix);
        append_rows(&mut out, rows);
        i += 1;
    }
    proof {
        assert(all.take(nodes.len() as int) == all);
    }
    out
}

/// Only folders hold children, at any depth.
pub open spec fn item_well_formed(item: JsonV) -> bool
    decreases item,
{
    match children_of(item) {
        Some(kids) => {
            proof {
                lemma_children_smaller(item);
            }
            is_folder(item) && nodes_well_formed(kids)
        },
        None => true,
    }
}

/// Only folders hold children, in every node at any depth.
pub open spec fn nodes_well_formed(nodes: Seq<JsonV>) -> bool
    decreases nodes,
{
    if nodes.len() == 0 {
        true
    } else {
        proof {
            assert(nodes.drop_last() == nodes.subrange(0, nodes.len() - 1));
        }
        nodes_well_formed(nodes.drop_last()) && item_well_formed(nodes.last())
    }
}

/// The counts of two parts together.
pub open spec fn add_counts(a: (nat, nat), b: (nat, nat)) -> (nat, nat) {
    (a.0 + b.0, a.1 + b.1)
}

proof fn lemma_with_children(item: JsonV, kids: Seq<JsonV>)
    requires
        children_of(item) is Some,
    ensures
        is_folder(with_children(item, kids)) == is_folder(item),
        children_of(with_children(item, kids)) == Some(kids),
{
    if let JsonV::Object(es) = item {
        crate::json::lemma_lookup_after_insert(es, "children"@, JsonV::Array(kids), "type"@);
        crate::json::lemma_lookup_after_insert(es, "children"@, JsonV::Array(kids), "children"@);
        assert("type"@ != "children"@) by {
            reveal_strlit("type");
            reveal_strlit("children");
            assert("type"@.len() != "children"@.len());
        }
    }
}

proof fn lemma_push_counts(kids: Seq<JsonV>, node: JsonV)
    ensures
        nodes_counts(kids.push(node)) == add_counts(nodes_counts(kids), node_counts(node)),
{
    assert(kids.push(node).drop_last() == kids);
}

proof fn lemma_item_insert_counts(item: JsonV, folder_id: Seq<char>, node: JsonV)
    requires
        item_well_formed(item),
        insert_item(item, folder_id, node) is Some,
    ensures
        node_counts(insert_item(item, folder_id, node)->Some_0) == add_counts(node_counts(item), node_counts(node)),
    decreases item,
{
    let kids = children_of(item)->Some_0;
    lemma_children_smaller(item);
    if is_target(item, folder_id) {
        lemma_with_children(item, kids.push(node));
        lemma_push_counts(kids, node);
    } else {
        let k2 = insert_nodes(kids, folder_id, node)->Some_0;
        lemma_nodes_insert_counts(kids, folder_id, node);
        lemma_with_children(item, k2);
    }
}

proof fn lemma_nodes_insert_counts(nodes: Seq<JsonV>, folder_id: Seq<char>, node: JsonV)
    requires
        nodes_well_formed(nodes),
        insert_nodes(nodes, folder_id, node) is Some,
    ensures
        nodes_counts(insert_nodes(nodes, folder_id, node)->Some_0) == add_counts(nodes_counts(nodes), node_counts(node)),
    decreases nodes,
{
    if nodes.len() > 0 {
        let init = nodes.drop_last();
        assert(init == nodes.subrange(0, nodes.len() - 1));
        match insert_nodes(init, folder_id, node) {
            Some(p) => {
                lemma_nodes_insert_counts(init, folder_id, node);
                assert(p.push(nodes.last()).drop_last() == p);
            },
            None => {
                let x = insert_item(nodes.last(), folder_id, node)->Some_0;
                lemma_item_insert_counts(nodes.last(), folder_id, node);
                assert(init.push(x).drop_last() == init);
            },
        }
    }
}

/// Adding a node to a folder of a tree in which only folders hold children
/// adds exactly the node's requests and folders to the tree's counts.
pub proof fn law_insert_adds_node(nodes: Seq<JsonV>, folder_id: Seq<char>, node: JsonV)
    requires
        nodes_well_formed(nodes),
        insert_nodes(nodes, folder_id, node) is Some,
    ensures
        nodes_counts(insert_nodes(nodes, folder_id, node)->Some_0) == add_counts(nodes_counts(nodes), node_counts(node)),
{
    lemma_nodes_insert_counts(nodes, folder_id, node);
}

} // verus!
