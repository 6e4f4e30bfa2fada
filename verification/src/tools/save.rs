use vstd::prelude::*;

use crate::json::{entries_view, field_str, lemma_entries_view, Json, JsonV};
use crate::redaction::{redact_request_with_patterns, request_spec};
use crate::text::{opt_ref_view, opt_view, owned, str_eq, strings_of};
use crate::tools::drafts::{int_json, int_v, opt_str_json, opt_str_v};
use crate::tools::{is_tool_error, text, text_spec, ToolError};
use crate::types::McpDraft;

verus! {

/// The name a saved request gets: the `name` argument, else the draft
/// request's own name, else `Untitled request`.
pub open spec fn save_name_spec(arguments: JsonV, request: JsonV) -> Seq<char> {
    match text_spec(arguments, "name"@) {
        Some(n) => n,
        None => match field_str(request, "name"@) {
            Some(n) => n,
            None => "Untitled request"@,
        },
    }
}

/// The name under which a draft is saved.
pub fn save_name(arguments: &Json, request: &Json) -> (r: String)
    ensures
        r@ == save_name_spec(arguments@, request@),
{
    match text(arguments, "name") {
        Some(n) => owned(n),
        None => match request.get_str("name") {
            Some(n) => n.clone(),
            None => owned("Untitled request"),
        },
    }
}

/// A draft is saved only at the revision the caller read.
pub fn check_revision(draft_revision: i64, expected_revision: i64) -> (r: Result<(), ToolError>)
    ensures
        draft_revision == expected_revision ==> r is Ok,
        draft_revision != expected_revision ==> (match r {
            Err(e) => is_tool_error(e, "STALE_DRAFT"@, "Draft revision is stale."@),
            Ok(_) => false,
        }),
{
    if draft_revision == expected_revision {
        Ok(())
    } else {
        Err(ToolError::new("STALE_DRAFT", "Draft revision is stale."))
    }
}

/// After approval, the draft must still be the one that was approved.
pub fn check_unchanged(approved: &str, current: &str) -> (r: Result<(), ToolError>)
    ensures
        approved@ == current@ ==> r is Ok,
        approved@ != current@ ==> (match r {
            Err(e) => is_tool_error(e, "STALE_DRAFT"@, "Draft changed after approval."@),
            Ok(_) => false,
        }),
{
    if str_eq(approved, current) {
        Ok(())
    } else {
        Err(ToolError::new("STALE_DRAFT", "Draft changed after approval."))
    }
}

/// What the approval of a save is bound to: the draft, its revision and
/// request, and where and under which name it is saved.
pub open spec fn save_binding_spec(
    draft: McpDraft,
    collection_id: Seq<char>,
    folder_id: Option<Seq<char>>,
    name: Seq<char>,
) -> JsonV {
    JsonV::Object(seq![
        ("collectionId"@, JsonV::Str(collection_id)),
        ("draftId"@, JsonV::Str(draft.id@)),
        ("folderId"@, opt_str_v(folder_id)),
        ("name"@, JsonV::Str(name)),
        ("request"@, draft.request@),
        ("revision"@, int_v(draft.revision)),
    ])
}

fn opt_text_json(o: Option<&str>) -> (r: Json)
    ensures
        r@ == opt_str_v(opt_ref_view(o)),
{
    match o {
        Some(s) => Json::Str(owned(s)),
        None => Json::Null,
    }
}

/// The document whose fingerprint the approval of a save is bound to.
pub fn save_binding(draft: &McpDraft, collection_id: &str, folder_id: Option<&str>, name: &str) -> (r: Json)
    ensures
        r@ == save_binding_spec(*draft, collection_id@, opt_ref_view(folder_id), name@),
{
    let es = vec![
        (owned("collectionId"), Json::Str(owned(collection_id))),
        (owned("draftId"), Json::Str(draft.id.clone())),
        (owned("folderId"), opt_text_json(folder_id)),
        (owned("name"), Json::Str(owned(name))),
        (owned("request"), draft.request.deep_clone()),
        (owned("revision"), int_json(draft.revision)),
    ];
    proof {
        lemma_entries_view(es@);
        assert(entries_view(es@) =~= seq![
            ("collectionId"@, JsonV::Str(collection_id@)),
            ("draftId"@, JsonV::Str(draft.id@)),
            ("folderId"@, opt_str_v(opt_ref_view(folder_id))),
            ("name"@, JsonV::Str(name@)),
            ("request"@, draft.request@),
            ("revision"@, int_v(draft.revision)),
        ]);
    }
    Json::Object(es)
}

/// What the user is shown when asked to approve a save; the request is
/// redacted with the sensitive key patterns.
pub open spec fn save_summary_spec(
    draft: McpDraft,
    collection_id: Seq<char>,
    folder_id: Option<Seq<char>>,
    name: Seq<char>,
    patterns: Seq<Seq<char>>,
) -> JsonV {
    JsonV::Object(seq![
        ("action"@, JsonV::Str("save"@)),
        ("allowSession"@, JsonV::Bool(false)),
        ("collectionId"@, JsonV::Str(collection_id)),
        ("folderId"@, opt_str_v(folder_id)),
        ("name"@, JsonV::Str(name)),
        ("request"@, request_spec(draft.request@, patterns)),
        ("workspaceId"@, JsonV::Str(draft.workspace_id@)),
    ])
}

/// The approval summary of a save.
pub fn save_summary(
    draft: &McpDraft,
    collection_id: &str,
    folder_id: Option<&str>,
    name: &str,
    sensitive_patterns: &[String],
) -> (r: Json)
    ensures
        r@ == save_summary_spec(*draft, collection_id@, opt_ref_view(folder_id), name@, strings_of(sensitive_patterns@)),
{
    let es = vec![
        (owned("action"), Json::Str(owned("save"))),
        (owned("allowSession"), Json::Bool(false)),
        (owned("collectionId"), Json::Str(owned(collection_id))),
        (owned("folderId"), opt_text_json(folder_id)),
        (owned("name"), Json::Str(owned(name))),
        (owned("request"), redact_request_with_patterns(&draft.request, sensitive_patterns)),
        (owned("workspaceId"), Json::Str(draft.workspace_id.clone())),
    ];
    proof {
        lemma_entries_view(es@);
        assert(entries_view(es@) =~= seq![
            ("action"@, JsonV::Str("save"@)),
            ("allowSession"@, JsonV::Bool(false)),
            ("collectionId"@, JsonV::Str(collection_id@)),
            ("folderId"@, opt_str_v(opt_ref_view(folder_id))),
            ("name"@, JsonV::Str(name@)),
            ("request"@, request_spec(draft.request@, strings_of(sensitive_patterns@))),
            ("workspaceId"@, JsonV::Str(draft.workspace_id@)),
        ]);
    }
    Json::Object(es)
}

/// The saved request that a save replaces: the draft's origin request,
/// when the draft is saved back into the collection it came from.
pub open spec fn update_target_spec(draft: McpDraft, collection_id: Seq<char>) -> Option<Seq<char>> {
    if opt_view(draft.origin_collection_id) == Some(collection_id) {
        opt_view(draft.origin_request_id)
    } else {
        None
    }
}

/// The request that a save overwrites, when there is one.
pub fn update_target(draft: &McpDraft, collection_id: &str) -> (r: Option<String>)
    ensures
        opt_view(r) == update_target_spec(*draft, collection_id@),
{
    let same = match &draft.origin_collection_id {
        Some(c) => str_eq(c.as_str(), collection_id),
        None => false,
    };
    if same {
        match &draft.origin_request_id {
            Some(r) => Some(r.clone()),
            None => None,
        }
    } else {
        None
    }
}

/// What saving a draft returns.
pub open spec fn saved_spec(
    workspace_id: Seq<char>,
    collection_id: Seq<char>,
    request_id: Seq<char>,
    git_warning: Option<Seq<char>>,
) -> JsonV {
    JsonV::Object(seq![
        ("collectionId"@, JsonV::Str(collection_id)),
        ("gitWarning"@, opt_str_v(git_warning)),
        ("requestId"@, JsonV::Str(request_id)),
        ("saved"@, JsonV::Bool(true)),
        ("workspaceId"@, JsonV::Str(workspace_id)),
    ])
}

/// The output of saving a draft.
pub fn saved(workspace_id: &str, collection_id: &str, request_id: &str, git_warning: &Option<String>) -> (r: Json)
    ensures
        r@ == saved_spec(workspace_id@, collection_id@, request_id@, opt_view(*git_warning)),
{
    let es = vec![
        (owned("collectionId"), Json::Str(owned(collection_id))),
        (owned("gitWarning"), opt_str_json(git_warning)),
        (owned("requestId"), Json::Str(owned(request_id))),
        (owned("saved"), Json::Bool(true)),
        (owned("workspaceId"), Json::Str(owned(workspace_id))),
    ];
    proof {
        lemma_entries_view(es@);
        assert(entries_view(es@) =~= seq![
            ("collectionId"@, JsonV::Str(collection_id@)),
            ("gitWarning"@, opt_str_v(opt_view(*git_warning))),
            ("requestId"@, JsonV::Str(request_id@)),
            ("saved"@, JsonV::Bool(true)),
            ("workspaceId"@, JsonV::Str(workspace_id@)),
        ]);
    }
    Json::Object(es)
}

} // verus!
