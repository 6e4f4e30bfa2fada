use vstd::prelude::*;

use crate::json::{entries_view, lemma_entries_view, Json, JsonV};
use crate::text::{from_chars, opt_ref_view, opt_view, owned, prefix_within, push_str_chars, str_eq, strings_of, to_chars, trim_chars, trim_spec, utf8_len};
use crate::tools::drafts::{opt_str_json, opt_str_v};
use crate::tools::{invalid_input, is_tool_error, required, required_message, text_spec, ToolError};

verus! {

/// The name given to a new collection or folder: the `name` argument,
/// trimmed, of 1 to 200 bytes.
pub open spec fn name_result(arguments: JsonV) -> Result<Seq<char>, Seq<char>> {
    match text_spec(arguments, "name"@) {
        None => Err(required_message("name"@)),
        Some(n) => {
            let t = trim_spec(n);
            if t.len() == 0 || utf8_len(t) > 200 {
                Err("name must contain 1 to 200 characters"@)
            } else {
                Ok(t)
            }
        },
    }
}

/// The trimmed `name` argument, which must hold 1 to 200 bytes.
pub fn required_name(arguments: &Json) -> (r: Result<String, ToolError>)
    ensures
        match name_result(arguments@) {
            Ok(n) => match r {
                Ok(s) => s@ == n,
                Err(_) => false,
            },
            Err(m) => match r {
                Err(e) => is_tool_error(e, "INVALID_INPUT"@, m),
                Ok(_) => false,
            },
        },
{
    let name = match required(arguments, "name") {
        Ok(n) => n,
        Err(e) => return Err(e),
    };
    let cs = to_chars(name);
    let t = trim_chars(cs.as_slice());
    if t.len() == 0 || prefix_within(t.as_slice(), 200).1 {
        return Err(invalid_input("name must contain 1 to 200 characters"));
    }
    Ok(from_chars(t.as_slice()))
}

/// A folder may only be made in a collection that exists.
pub fn check_collection_exists(collection_ids: &Vec<String>, collection_id: &str) -> (r: Result<(), ToolError>)
    ensures
        strings_of(collection_ids@).contains(collection_id@) ==> r is Ok,
        !strings_of(collection_ids@).contains(collection_id@) ==> (match r {
            Err(e) => is_tool_error(e, "NOT_FOUND"@, "Collection not found"@),
            Ok(_) => false,
        }),
{
    let mut i: usize = 0;
    while i < collection_ids.len()
        invariant
            i <= collection_ids.len(),
            forall|k: int| 0 <= k < i ==> strings_of(collection_ids@)[k] != collection_id@,
        decreases collection_ids.len() - i,
    {
        if str_eq(collection_ids[i].as_str(), collection_id) {
            assert(strings_of(collection_ids@)[i as int] == collection_id@);
            return Ok(());
        }
        i += 1;
    }
    proof {
        if strings_of(collection_ids@).contains(collection_id@) {
            let k = choose|k: int| 0 <= k < strings_of(collection_ids@).len() && strings_of(collection_ids@)[k] == collection_id@;
            assert(false);
        }
    }
    Err(ToolError::new("NOT_FOUND", "Collection not found"))
}

/// What the approval of a new collection is bound to.
pub open spec fn collection_binding_spec(workspace_id: Seq<char>, name: Seq<char>) -> JsonV {
    JsonV::Object(seq![("name"@, JsonV::Str(name)), ("workspaceId"@, JsonV::Str(workspace_id))])
}

/// The document whose fingerprint the approval of a new collection is bound to.
pub fn collection_binding(workspace_id: &str, name: &str) -> (r: Json)
    ensures
        r@ == collection_binding_spec(workspace_id@, name@),
{
    let es = vec![(owned("name"), Json::Str(owned(name))), (owned("workspaceId"), Json::Str(owned(workspace_id)))];
    proof {
        lemma_entries_view(es@);
        assert(entries_view(es@) =~= seq![("name"@, JsonV::Str(name@)), ("workspaceId"@, JsonV::Str(workspace_id@))]);
    }
    Json::Object(es)
}

/// What the user is shown when asked to approve a new collection.
pub open spec fn collection_summary_spec(workspace_id: Seq<char>, name: Seq<char>) -> JsonV {
    JsonV::Object(seq![
        ("action"@, JsonV::Str("create_collection"@)),
        ("allowSession"@, JsonV::Bool(false)),
        ("name"@, JsonV::Str(name)),
        ("workspaceId"@, JsonV::Str(workspace_id)),
    ])
}

/// The approval summary of a new collection.
pub fn collection_summary(workspace_id: &str, name: &str) -> (r: Json)
    ensures
        r@ == collection_summary_spec(workspace_id@, name@),
{
    let es = vec![
        (owned("action"), Json::Str(owned("create_collection"))),
        (owned("allowSession"), Json::Bool(false)),
        (owned("name"), Json::Str(owned(name))),
        (owned("workspaceId"), Json::Str(owned(workspace_id))),
    ];
    proof {
        lemma_entries_view(es@);
        assert(entries_view(es@) =~= seq![
            ("action"@, JsonV::Str("create_collection"@)),
            ("allowSession"@, JsonV::Bool(false)),
            ("name"@, JsonV::Str(name@)),
            ("workspaceId"@, JsonV::Str(workspace_id@)),
        ]);
    }
    Json::Object(es)
}

/// What creating a collection returns.
pub open spec fn collection_created_spec(
    workspace_id: Seq<char>,
    collection_id: Seq<char>,
    name: Seq<char>,
    git_warning: Option<Seq<char>>,
) -> JsonV {
    JsonV::Object(seq![
        ("collectionId"@, JsonV::Str(collection_id)),
        ("created"@, JsonV::Bool(true)),
        ("gitWarning"@, opt_str_v(git_warning)),
        ("name"@, JsonV::Str(name)),
        ("workspaceId"@, JsonV::Str(workspace_id)),
    ])
}

/// The output of creating a collection.
pub fn collection_created(workspace_id: &str, collection_id: &str, name: &str, git_warning: &Option<String>) -> (r: Json)
    ensures
        r@ == collection_created_spec(workspace_id@, collection_id@, name@, opt_view(*git_warning)),
{
    let es = vec![
        (owned("collectionId"), Json::Str(owned(collection_id))),
        (owned("created"), Json::Bool(true)),
        (owned("gitWarning"), opt_str_json(git_warning)),
        (owned("name"), Json::Str(owned(name))),
        (owned("workspaceId"), Json::Str(owned(workspace_id))),
    ];
    proof {
        lemma_entries_view(es@);
        assert(entries_view(es@) =~= seq![
            ("collectionId"@, JsonV::Str(collection_id@)),
            ("created"@, JsonV::Bool(true)),
            ("gitWarning"@, opt_str_v(opt_view(*git_warning))),
            ("name"@, JsonV::Str(name@)),
            ("workspaceId"@, JsonV::Str(workspace_id@)),
        ]);
    }
    Json::Object(es)
}

fn opt_text_json(o: Option<&str>) -> (r: Json)
    ensures
        r@ == opt_str_v(opt_ref_view(o)),
{
    match o {
        Some(s) => Json::Str(owned(s)),
        None => Json::Null,
    }
}

/// What the approval of a new folder is bound to.
pub open spec fn folder_binding_spec(
    workspace_id: Seq<char>,
    collection_id: Seq<char>,
    parent_folder_id: Option<Seq<char>>,
    name: Seq<char>,
) -> JsonV {
    JsonV::Object(seq![
        ("collectionId"@, JsonV::Str(collection_id)),
        ("name"@, JsonV::Str(name)),
        ("parentFolderId"@, opt_str_v(parent_folder_id)),
        ("workspaceId"@, JsonV::Str(workspace_id)),
    ])
}

/// The document whose fingerprint the approval of a new folder is bound to.
pub fn folder_binding(workspace_id: &str, collection_id: &str, parent_folder_id: Option<&str>, name: &str) -> (r: Json)
    ensures
        r@ == folder_binding_spec(workspace_id@, collection_id@, opt_ref_view(parent_folder_id), name@),
{
    let es = vec![
        (owned("collectionId"), Json::Str(owned(collection_id))),
        (owned("name"), Json::Str(owned(name))),
        (owned("parentFolderId"), opt_text_json(parent_folder_id)),
        (owned("workspaceId"), Json::Str(owned(workspace_id))),
    ];
    proof {
        lemma_entries_view(es@);
        assert(entries_view(es@) =~= seq![
            ("collectionId"@, JsonV::Str(collection_id@)),
            ("name"@, JsonV::Str(name@)),
            ("parentFolderId"@, opt_str_v(opt_ref_view(parent_folder_id))),
            ("workspaceId"@, JsonV::Str(workspace_id@)),
        ]);
    }
    Json::Object(es)
}

/// What the user is shown when asked to approve a new folder.
pub open spec fn folder_summary_spec(
    workspace_id: Seq<char>,
    collection_id: Seq<char>,
    parent_folder_id: Option<Seq<char>>,
    name: Seq<char>,
) -> JsonV {
    JsonV::Object(seq![
        ("action"@, JsonV::Str("create_folder"@)),
        ("allowSession"@, JsonV::Bool(false)),
        ("collectionId"@, JsonV::Str(collection_id)),
        ("name"@, JsonV::Str(name)),
        ("parentFolderId"@, opt_str_v(parent_folder_id)),
        ("workspaceId"@, JsonV::Str(workspace_id)),
    ])
}

/// The approval summary of a new folder.
pub fn folder_summary(workspace_id: &str, collection_id: &str, parent_folder_id: Option<&str>, name: &str) -> (r: Json)
    ensures
        r@ == folder_summary_spec(workspace_id@, collection_id@, opt_ref_view(parent_folder_id), name@),
{
    let es = vec![
        (owned("action"), Json::Str(owned("create_folder"))),
        (owned("allowSession"), Json::Bool(false)),
        (owned("collectionId"), Json::Str(owned(collection_id))),
        (owned("name"), Json::Str(owned(name))),
        (owned("parentFolderId"), opt_text_json(parent_folder_id)),
        (owned("workspaceId"), Json::Str(owned(workspace_id))),
    ];
    proof {
        lemma_entries_view(es@);
        assert(entries_view(es@) =~= seq![
            ("action"@, JsonV::Str("create_folder"@)),
            ("allowSession"@, JsonV::Bool(false)),
            ("collectionId"@, JsonV::Str(collection_id@)),
            ("name"@, JsonV::Str(name@)),
            ("parentFolderId"@, opt_str_v(opt_ref_view(parent_folder_id))),
            ("workspaceId"@, JsonV::Str(workspace_id@)),
        ]);
    }
    Json::Object(es)
}

/// What creating a folder returns.
pub open spec fn folder_created_spec(
    workspace_id: Seq<char>,
    collection_id: Seq<char>,
    folder_id: Seq<char>,
    name: Seq<char>,
    git_warning: Option<Seq<char>>,
) -> JsonV {
    JsonV::Object(seq![
        ("collectionId"@, JsonV::Str(collection_id)),
        ("created"@, JsonV::Bool(true)),
        ("folderId"@, JsonV::Str(folder_id)),
        ("gitWarning"@, opt_str_v(git_warning)),
        ("name"@, JsonV::Str(name)),
        ("workspaceId"@, JsonV::Str(workspace_id)),
    ])
}

/// The output of creating a folder.
pub fn folder_created(
    workspace_id: &str,
    collection_id: &str,
    folder_id: &str,
    name: &str,
    git_warning: &Option<String>,
) -> (r: Json)
    ensures
        r@ == folder_created_spec(workspace_id@, collection_id@, folder_id@, name@, opt_view(*git_warning)),
{
    let es = vec![
        (owned("collectionId"), Json::Str(owned(collection_id))),
        (owned("created"), Json::Bool(true)),
        (owned("folderId"), Json::Str(owned(folder_id))),
        (owned("gitWarning"), opt_str_json(git_warning)),
        (owned("name"), Json::Str(owned(name))),
        (owned("workspaceId"), Json::Str(owned(workspace_id))),
    ];
    proof {
        lemma_entries_view(es@);
        assert(entries_view(es@) =~= seq![
            ("collectionId"@, JsonV::Str(collection_id@)),
            ("created"@, JsonV::Bool(true)),
            ("folderId"@, JsonV::Str(folder_id@)),
            ("gitWarning"@, opt_str_v(opt_view(*git_warning))),
            ("name"@, JsonV::Str(name@)),
            ("workspaceId"@, JsonV::Str(workspace_id@)),
        ]);
    }
    Json::Object(es)
}

/// The setting that turns on committing after a save in a workspace.
pub open spec fn auto_commit_key_spec(workspace_id: Seq<char>) -> Seq<char> {
    "workspace:"@ + workspace_id + ":autoCommitOnSave"@
}

/// The name of the setting that turns on committing after a save.
pub fn auto_commit_key(workspace_id: &str) -> (r: String)
    ensures
        r@ == auto_commit_key_spec(workspace_id@),
{
    let mut m = to_chars("workspace:");
    push_str_chars(&mut m, workspace_id);
    push_str_chars(&mut m, ":autoCommitOnSave");
    from_chars(m.as_slice())
}

/// A change is committed after a save only when the workspace asks for it
/// and is synchronized with git.
pub fn should_auto_commit(enabled: bool, sync_type: &str) -> (b: bool)
    ensures
        b == (enabled && sync_type@ == "git"@),
{
    enabled && str_eq(sync_type, "git")
}

} // verus!
