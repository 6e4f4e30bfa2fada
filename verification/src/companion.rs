use vstd::prelude::*;

use crate::json::{entries_view, items_view, lemma_entries_view, Json, JsonV};
use crate::text::{opt_view, owned, str_eq, strings_of};
use crate::tools::group_spec;
use crate::types::{BrokerRequest, BrokerResponse};

verus! {

/// The protocol version the companion speaks to the broker.
pub const PROTOCOL_VERSION: &'static str = "2025-11-25";

/// A tool that the companion offers to its MCP client: its name and
/// description, its input properties (each with its JSON type and whether
/// it is required), and whether it only reads and whether it reaches
/// outside TesAPI.
#[derive(Debug)]
pub struct ToolSpec {
    pub name: &'static str,
    pub description: &'static str,
    pub properties: Vec<(&'static str, &'static str, bool)>,
    pub read_only: bool,
    pub open_world: bool,
}

fn tool(
    name: &'static str,
    description: &'static str,
    properties: Vec<(&'static str, &'static str, bool)>,
    read_only: bool,
    open_world: bool,
) -> (r: ToolSpec)
    ensures
        r.name == name,
        r.description == description,
        r.properties@ == properties@,
        r.read_only == read_only,
        r.open_world == open_world,
{
    ToolSpec { name, description, properties, read_only, open_world }
}

/// The descriptions of the tools.
pub const LIST_WORKSPACES_TEXT: &'static str = "List TesAPI workspaces explicitly allowed for this client.";
pub const LIST_COLLECTIONS_TEXT: &'static str = "List allowed collections in a workspace.";
pub const CREATE_COLLECTION_TEXT: &'static str = "Create an approved collection in a workspace.";
pub const CREATE_FOLDER_TEXT: &'static str = "Create an approved folder in a collection, optionally below another folder.";
pub const SEARCH_REQUESTS_TEXT: &'static str = "Search allowed saved requests by name, method, URL, or path.";
pub const GET_COLLECTION_DOCUMENTATION_TEXT: &'static str = "Get derived redacted documentation for an allowed collection.";
pub const GET_REQUEST_TEXT: &'static str = "Inspect one allowed request template without secret values.";
pub const LIST_ENVIRONMENTS_TEXT: &'static str = "List allowed environment metadata and variable keys without values.";
pub const CREATE_REQUEST_DRAFT_TEXT: &'static str = "Create an unsaved request draft. Use {{baseUrl}} for environment variables; use :templateId plus pathVariables for path parameters. Set body.type when raw or formData is present. Populated params, headers, pathVariables, and formData rows are enabled automatically when enabled is omitted. This does not modify collections.";
pub const UPDATE_REQUEST_DRAFT_TEXT: &'static str = "Apply a structured patch to a revisioned unsaved draft. Path parameters use :name plus pathVariables, never {{name}}; body.type must match raw or formData content. Populated rows are enabled automatically when enabled is omitted.";
pub const GET_REQUEST_DRAFT_TEXT: &'static str = "Inspect a redacted unsaved draft and its revision.";
pub const SAVE_REQUEST_DRAFT_TEXT: &'static str = "Save an approved draft through TesAPI atomic workspace storage.";
pub const EXECUTE_REQUEST_TEXT: &'static str = "Execute an allowed saved request or draft; risky calls require approval.";

/// A tool as plain values: its properties as (name, JSON type, required).
pub struct ToolView {
    pub name: Seq<char>,
    pub description: Seq<char>,
    pub properties: Seq<(Seq<char>, Seq<char>, bool)>,
    pub read_only: bool,
    pub open_world: bool,
}

pub open spec fn props_view(p: Seq<(&'static str, &'static str, bool)>) -> Seq<(Seq<char>, Seq<char>, bool)> {
    p.map_values(|x: (&'static str, &'static str, bool)| (x.0@, x.1@, x.2))
}

impl View for ToolSpec {
    type V = ToolView;

    open spec fn view(&self) -> ToolView {
        ToolView {
            name: self.name@,
            description: self.description@,
            properties: props_view(self.properties@),
            read_only: self.read_only,
            open_world: self.open_world,
        }
    }
}

/// The tools the companion offers, in order.
pub open spec fn tool_specs() -> Seq<ToolView> {
    seq![
        ToolView {
            name: "tesapi_list_workspaces"@,
            description: LIST_WORKSPACES_TEXT@,
            properties: seq![("offset"@, "integer"@, false), ("limit"@, "integer"@, false)],
            read_only: true,
            open_world: false,
        },
        ToolView {
            name: "tesapi_list_collections"@,
            description: LIST_COLLECTIONS_TEXT@,
            properties: seq![("workspaceId"@, "string"@, true), ("offset"@, "integer"@, false), ("limit"@, "integer"@, false)],
            read_only: true,
            open_world: false,
        },
        ToolView {
            name: "tesapi_create_collection"@,
            description: CREATE_COLLECTION_TEXT@,
            properties: seq![("workspaceId"@, "string"@, true), ("name"@, "string"@, true)],
            read_only: false,
            open_world: false,
        },
        ToolView {
            name: "tesapi_create_folder"@,
            description: CREATE_FOLDER_TEXT@,
            properties: seq![("workspaceId"@, "string"@, true), ("collectionId"@, "string"@, true), ("parentFolderId"@, "string"@, false), ("name"@, "string"@, true)],
            read_only: false,
            open_world: false,
        },
        ToolView {
            name: "tesapi_search_requests"@,
            description: SEARCH_REQUESTS_TEXT@,
            properties: seq![("workspaceId"@, "string"@, true), ("collectionId"@, "string"@, false), ("query"@, "string"@, false), ("offset"@, "integer"@, false), ("limit"@, "integer"@, false)],
            read_only: true,
            open_world: false,
        },
        ToolView {
            name: "tesapi_get_collection_documentation"@,
            description: GET_COLLECTION_DOCUMENTATION_TEXT@,
            properties: seq![("workspaceId"@, "string"@, true), ("collectionId"@, "string"@, true), ("offset"@, "integer"@, false), ("limit"@, "integer"@, false)],
            read_only: true,
            open_world: false,
        },
        ToolView {
            name: "tesapi_get_request"@,
            description: GET_REQUEST_TEXT@,
            properties: seq![("workspaceId"@, "string"@, true), ("collectionId"@, "string"@, true), ("requestId"@, "string"@, true)],
            read_only: true,
            open_world: false,
        },
        ToolView {
            name: "tesapi_list_environments"@,
            description: LIST_ENVIRONMENTS_TEXT@,
            properties: seq![("workspaceId"@, "string"@, true), ("offset"@, "integer"@, false), ("limit"@, "integer"@, false)],
            read_only: true,
            open_world: false,
        },
        ToolView {
            name: "tesapi_create_request_draft"@,
            description: CREATE_REQUEST_DRAFT_TEXT@,
            properties: seq![("workspaceId"@, "string"@, true), ("collectionId"@, "string"@, false), ("requestId"@, "string"@, false), ("request"@, "object"@, false)],
            read_only: false,
            open_world: false,
        },
        ToolView {
            name: "tesapi_update_request_draft"@,
            description: UPDATE_REQUEST_DRAFT_TEXT@,
            properties: seq![("draftId"@, "string"@, true), ("revision"@, "integer"@, true), ("patch"@, "object"@, true)],
            read_only: false,
            open_world: false,
        },
        ToolView {
            name: "tesapi_get_request_draft"@,
            description: GET_REQUEST_DRAFT_TEXT@,
            properties: seq![("draftId"@, "string"@, true)],
            read_only: true,
            open_world: false,
        },
        ToolView {
            name: "tesapi_save_request_draft"@,
            description: SAVE_REQUEST_DRAFT_TEXT@,
            properties: seq![("draftId"@, "string"@, true), ("revision"@, "integer"@, true), ("collectionId"@, "string"@, true), ("folderId"@, "string"@, false), ("name"@, "string"@, false)],
            read_only: false,
            open_world: false,
        },
        ToolView {
            name: "tesapi_execute_request"@,
            description: EXECUTE_REQUEST_TEXT@,
            properties: seq![("environmentId"@, "string"@, true), ("draftId"@, "string"@, false), ("workspaceId"@, "string"@, false), ("collectionId"@, "string"@, false), ("requestId"@, "string"@, false)],
            read_only: false,
            open_world: true,
        },
    ]
}

/// The tools the companion offers.
pub fn definitions() -> (r: Vec<ToolSpec>)
    ensures
        r.len() == tool_specs().len(),
        forall|i: int| 0 <= i < r.len() ==> (#[trigger] r@[i])@ == tool_specs()[i],
        forall|i: int| 0 <= i < r.len() ==> (#[trigger] group_spec(r@[i].name@)) is Some,
{
    let r = vec![
        tool("tesapi_list_workspaces", LIST_WORKSPACES_TEXT, vec![("offset", "integer", false), ("limit", "integer", false)], true, false),
        tool("tesapi_list_collections", LIST_COLLECTIONS_TEXT, vec![("workspaceId", "string", true), ("offset", "integer", false), ("limit", "integer", false)], true, false),
        tool("tesapi_create_collection", CREATE_COLLECTION_TEXT, vec![("workspaceId", "string", true), ("name", "string", true)], false, false),
        tool("tesapi_create_folder", CREATE_FOLDER_TEXT, vec![("workspaceId", "string", true), ("collectionId", "string", true), ("parentFolderId", "string", false), ("name", "string", true)], false, false),
        tool("tesapi_search_requests", SEARCH_REQUESTS_TEXT, vec![("workspaceId", "string", true), ("collectionId", "string", false), ("query", "string", false), ("offset", "integer", false), ("limit", "integer", false)], true, false),
        tool("tesapi_get_collection_documentation", GET_COLLECTION_DOCUMENTATION_TEXT, vec![("workspaceId", "string", true), ("collectionId", "string", true), ("offset", "integer", false), ("limit", "integer", false)], true, false),
        tool("tesapi_get_request", GET_REQUEST_TEXT, vec![("workspaceId", "string", true), ("collectionId", "string", true), ("requestId", "string", true)], true, false),
        tool("tesapi_list_environments", LIST_ENVIRONMENTS_TEXT, vec![("workspaceId", "string", true), ("offset", "integer", false), ("limit", "integer", false)], true, false),
        tool("tesapi_create_request_draft", CREATE_REQUEST_DRAFT_TEXT, vec![("workspaceId", "string", true), ("collectionId", "string", false), ("requestId", "string", false), ("request", "object", false)], false, false),
        tool("tesapi_update_request_draft", UPDATE_REQUEST_DRAFT_TEXT, vec![("draftId", "string", true), ("revision", "integer", true), ("patch", "object", true)], false, false),
        tool("tesapi_get_request_draft", GET_REQUEST_DRAFT_TEXT, vec![("draftId", "string", true)], true, false),
        tool("tesapi_save_request_draft", SAVE_REQUEST_DRAFT_TEXT, vec![("draftId", "string", true), ("revision", "integer", true), ("collectionId", "string", true), ("folderId", "string", false), ("name", "string", false)], false, false),
        tool("tesapi_execute_request", EXECUTE_REQUEST_TEXT, vec![("environmentId", "string", true), ("draftId", "string", false), ("workspaceId", "string", false), ("collectionId", "string", false), ("requestId", "string", false)], false, true),
    ];
    proof {
        assert(props_view(r@[0].properties@) =~= tool_specs()[0].properties);
        assert(r@[0]@ == tool_specs()[0]);
        assert(props_view(r@[1].properties@) =~= tool_specs()[1].properties);
        assert(r@[1]@ == tool_specs()[1]);
        assert(props_view(r@[2].properties@) =~= tool_specs()[2].properties);
        assert(r@[2]@ == tool_specs()[2]);
        assert(props_view(r@[3].properties@) =~= tool_specs()[3].properties);
        assert(r@[3]@ == tool_specs()[3]);
        assert(props_view(r@[4].properties@) =~= tool_specs()[4].properties);
        assert(r@[4]@ == tool_specs()[4]);
        assert(props_view(r@[5].properties@) =~= tool_specs()[5].properties);
        assert(r@[5]@ == tool_specs()[5]);
        assert(props_view(r@[6].properties@) =~= tool_specs()[6].properties);
        assert(r@[6]@ == tool_specs()[6]);
        assert(props_view(r@[7].properties@) =~= tool_specs()[7].properties);
        assert(r@[7]@ == tool_specs()[7]);
        assert(props_view(r@[8].properties@) =~= tool_specs()[8].properties);
        assert(r@[8]@ == tool_specs()[8]);
        assert(props_view(r@[9].properties@) =~= tool_specs()[9].properties);
        assert(r@[9]@ == tool_specs()[9]);
        assert(props_view(r@[10].properties@) =~= tool_specs()[10].properties);
        assert(r@[10]@ == tool_specs()[10]);
        assert(props_view(r@[11].properties@) =~= tool_specs()[11].properties);
        assert(r@[11]@ == tool_specs()[11]);
        assert(props_view(r@[12].properties@) =~= tool_specs()[12].properties);
        assert(r@[12]@ == tool_specs()[12]);
        assert forall|i: int| 0 <= i < r.len() implies (#[trigger] group_spec(r@[i].name@)) is Some by {
            assert(r@[i].name@ == tool_specs()[i].name);
            lemma_tool_specs_routed(i);
        }
    }
    r
}

proof fn lemma_tool_specs_routed(i: int)
    requires
        0 <= i < tool_specs().len(),
    ensures
        group_spec(tool_specs()[i].name) is Some,
{
}

/// The tools are well formed: their names are distinct, only the execute
/// tool reaches outside TesAPI, read-only tools stay inside, and no property
/// is listed twice in a tool.
pub proof fn law_tool_specs_well_formed()
    ensures
        tool_specs().len() == 13,
        forall|i: int, j: int| 0 <= i < j < tool_specs().len() ==> #[trigger] tool_specs()[i].name != #[trigger] tool_specs()[j].name,
        forall|i: int| 0 <= i < tool_specs().len() ==> ((#[trigger] tool_specs()[i]).open_world <==> tool_specs()[i].name == "tesapi_execute_request"@),
        forall|i: int| 0 <= i < tool_specs().len() ==> (#[trigger] tool_specs()[i]).read_only ==> !tool_specs()[i].open_world,
{
    let ts = tool_specs();
    reveal_strlit("tesapi_list_workspaces");
    reveal_strlit("tesapi_list_collections");
    reveal_strlit("tesapi_create_collection");
    reveal_strlit("tesapi_create_folder");
    reveal_strlit("tesapi_search_requests");
    reveal_strlit("tesapi_get_collection_documentation");
    reveal_strlit("tesapi_get_request");
    reveal_strlit("tesapi_list_environments");
    reveal_strlit("tesapi_create_request_draft");
    reveal_strlit("tesapi_update_request_draft");
    reveal_strlit("tesapi_get_request_draft");
    reveal_strlit("tesapi_save_request_draft");
    reveal_strlit("tesapi_execute_request");
    assert(ts[0].name.len() != ts[1].name.len());
    assert(ts[0].name.len() != ts[2].name.len());
    assert(ts[0].name.len() != ts[3].name.len());
    assert(ts[0].name[7] != ts[4].name[7]);
    assert(ts[0].name.len() != ts[5].name.len());
    assert(ts[0].name.len() != ts[6].name.len());
    assert(ts[0].name.len() != ts[7].name.len());
    assert(ts[0].name.len() != ts[8].name.len());
    assert(ts[0].name.len() != ts[9].name.len());
    assert(ts[0].name.len() != ts[10].name.len());
    assert(ts[0].name.len() != ts[11].name.len());
    assert(ts[0].name[7] != ts[12].name[7]);
    assert(ts[1].name.len() != ts[2].name.len());
    assert(ts[1].name.len() != ts[3].name.len());
    assert(ts[1].name.len() != ts[4].name.len());
    assert(ts[1].name.len() != ts[5].name.len());
    assert(ts[1].name.len() != ts[6].name.len());
    assert(ts[1].name.len() != ts[7].name.len());
    assert(ts[1].name.len() != ts[8].name.len());
    assert(ts[1].name.len() != ts[9].name.len());
    assert(ts[1].name.len() != ts[10].name.len());
    assert(ts[1].name.len() != ts[11].name.len());
    assert(ts[1].name.len() != ts[12].name.len());
    assert(ts[2].name.len() != ts[3].name.len());
    assert(ts[2].name.len() != ts[4].name.len());
    assert(ts[2].name.len() != ts[5].name.len());
    assert(ts[2].name.len() != ts[6].name.len());
    assert(ts[2].name[7] != ts[7].name[7]);
    assert(ts[2].name.len() != ts[8].name.len());
    assert(ts[2].name.len() != ts[9].name.len());
    assert(ts[2].name[7] != ts[10].name[7]);
    assert(ts[2].name.len() != ts[11].name.len());
    assert(ts[2].name.len() != ts[12].name.len());
    assert(ts[3].name.len() != ts[4].name.len());
    assert(ts[3].name.len() != ts[5].name.len());
    assert(ts[3].name.len() != ts[6].name.len());
    assert(ts[3].name.len() != ts[7].name.len());
    assert(ts[3].name.len() != ts[8].name.len());
    assert(ts[3].name.len() != ts[9].name.len());
    assert(ts[3].name.len() != ts[10].name.len());
    assert(ts[3].name.len() != ts[11].name.len());
    assert(ts[3].name.len() != ts[12].name.len());
    assert(ts[4].name.len() != ts[5].name.len());
    assert(ts[4].name.len() != ts[6].name.len());
    assert(ts[4].name.len() != ts[7].name.len());
    assert(ts[4].name.len() != ts[8].name.len());
    assert(ts[4].name.len() != ts[9].name.len());
    assert(ts[4].name.len() != ts[10].name.len());
    assert(ts[4].name.len() != ts[11].name.len());
    assert(ts[4].name[7] != ts[12].name[7]);
    assert(ts[5].name.len() != ts[6].name.len());
    assert(ts[5].name.len() != ts[7].name.len());
    assert(ts[5].name.len() != ts[8].name.len());
    assert(ts[5].name.len() != ts[9].name.len());
    assert(ts[5].name.len() != ts[10].name.len());
    assert(ts[5].name.len() != ts[11].name.len());
    assert(ts[5].name.len() != ts[12].name.len());
    assert(ts[6].name.len() != ts[7].name.len());
    assert(ts[6].name.len() != ts[8].name.len());
    assert(ts[6].name.len() != ts[9].name.len());
    assert(ts[6].name.len() != ts[10].name.len());
    assert(ts[6].name.len() != ts[11].name.len());
    assert(ts[6].name.len() != ts[12].name.len());
    assert(ts[7].name.len() != ts[8].name.len());
    assert(ts[7].name.len() != ts[9].name.len());
    assert(ts[7].name[7] != ts[10].name[7]);
    assert(ts[7].name.len() != ts[11].name.len());
    assert(ts[7].name.len() != ts[12].name.len());
    assert(ts[8].name[7] != ts[9].name[7]);
    assert(ts[8].name.len() != ts[10].name.len());
    assert(ts[8].name.len() != ts[11].name.len());
    assert(ts[8].name.len() != ts[12].name.len());
    assert(ts[9].name.len() != ts[10].name.len());
    assert(ts[9].name.len() != ts[11].name.len());
    assert(ts[9].name.len() != ts[12].name.len());
    assert(ts[10].name.len() != ts[11].name.len());
    assert(ts[10].name.len() != ts[12].name.len());
    assert(ts[11].name.len() != ts[12].name.len());
    assert forall|i: int, j: int| 0 <= i < j < ts.len() implies #[trigger] ts[i].name != #[trigger] ts[j].name by {
        assert(i == 0 || i == 1 || i == 2 || i == 3 || i == 4 || i == 5 || i == 6 || i == 7 || i == 8 || i == 9 || i == 10 || i == 11 || i == 12);
        assert(j == 0 || j == 1 || j == 2 || j == 3 || j == 4 || j == 5 || j == 6 || j == 7 || j == 8 || j == 9 || j == 10 || j == 11 || j == 12);
    }
    assert forall|i: int| 0 <= i < ts.len() implies ((#[trigger] ts[i]).open_world <==> ts[i].name == "tesapi_execute_request"@) by {
        assert(i == 0 || i == 1 || i == 2 || i == 3 || i == 4 || i == 5 || i == 6 || i == 7 || i == 8 || i == 9 || i == 10 || i == 11 || i == 12);
    }
}

/// The JSON type of each property, keyed by the property's name.
pub open spec fn property_types(props: Seq<(&'static str, &'static str, bool)>) -> Seq<(Seq<char>, JsonV)> {
    props.map_values(|p: (&'static str, &'static str, bool)| (p.0@, JsonV::Object(seq![("type"@, JsonV::Str(p.1@))])))
}

/// The names of the required properties, in order.
pub open spec fn required_keys(props: Seq<(&'static str, &'static str, bool)>) -> Seq<JsonV>
    decreases props.len(),
{
    if props.len() == 0 {
        seq![]
    } else if props.last().2 {
        required_keys(props.drop_last()).push(JsonV::Str(props.last().0@))
    } else {
        required_keys(props.drop_last())
    }
}

/// Every required name of a schema is one of its properties.
pub proof fn law_required_are_properties(props: Seq<(&'static str, &'static str, bool)>)
    ensures
        forall|k: int| 0 <= k < required_keys(props).len() ==> exists|m: int|
            0 <= m < props.len() && props[m].2 && #[trigger] required_keys(props)[k] == JsonV::Str(props[m].0@),
    decreases props.len(),
{
    if props.len() > 0 {
        let front = props.drop_last();
        law_required_are_properties(front);
        assert forall|k: int| 0 <= k < required_keys(props).len() implies exists|m: int|
            0 <= m < props.len() && props[m].2 && #[trigger] required_keys(props)[k] == JsonV::Str(props[m].0@) by {
            if k < required_keys(front).len() {
                let m = choose|m: int| 0 <= m < front.len() && front[m].2 && required_keys(front)[k] == JsonV::Str(front[m].0@);
                assert(props[m] == front[m]);
            } else {
                assert(props[props.len() - 1] == props.last());
            }
        }
    }
}

/// The JSON schema of a tool's input: an object whose properties have the
/// given types, with the required ones listed, and other properties allowed.
pub open spec fn input_schema_spec(t: ToolSpec) -> JsonV {
    JsonV::Object(seq![
        ("additionalProperties"@, JsonV::Bool(true)),
        ("properties"@, JsonV::Object(property_types(t.properties@))),
        ("required"@, JsonV::Array(required_keys(t.properties@))),
        ("type"@, JsonV::Str("object"@)),
    ])
}

/// The input schema of a tool.
pub fn input_schema(t: &ToolSpec) -> (r: Json)
    ensures
        r@ == input_schema_spec(*t),
{
    let mut properties: Vec<(String, Json)> = Vec::new();
    let mut required: Vec<Json> = Vec::new();
    let mut i: usize = 0;
    while i < t.properties.len()
        invariant
            i <= t.properties.len(),
            entries_view(properties@) == property_types(t.properties@.take(i as int)),
            items_view(required@) == required_keys(t.properties@.take(i as int)),
        decreases t.properties.len() - i,
    {
        let (key, value_type, is_required) = t.properties[i];
        let es = vec![(owned("type"), Json::Str(owned(value_type)))];
        proof {
            lemma_entries_view(es@);
            assert(entries_view(es@) =~= seq![("type"@, JsonV::Str(value_type@))]);
        }
        let ghost before = properties@;
        let ghost before_required = required@;
        proof {
            assert(t.properties@.take(i + 1).drop_last() == t.properties@.take(i as int));
            assert(t.properties@.take(i + 1).last() == t.properties@[i as int]);
        }
        let entry = (owned(key), Json::Object(es));
        assert(entry.0@ == key@ && entry.1@ == JsonV::Object(seq![("type"@, JsonV::Str(value_type@))]));
        properties.push(entry);
        if is_required {
            let item = Json::Str(owned(key));
            assert(item@ == JsonV::Str(key@));
            required.push(item);
            assert(required@.drop_last() == before_required);
            assert(required@.last() == item);
        }
        proof {
            assert(properties@.drop_last() == before);
            assert(t.properties@[i as int] == (key, value_type, is_required));
            assert(entries_view(properties@) == entries_view(before).push((key@, JsonV::Object(seq![("type"@, JsonV::Str(value_type@))]))));
            assert(property_types(t.properties@.take(i + 1)) =~= property_types(t.properties@.take(i as int)).push(
                (key@, JsonV::Object(seq![("type"@, JsonV::Str(value_type@))]))));
            if is_required {
                assert(items_view(required@) == items_view(before_required).push(JsonV::Str(key@)));
            } else {
                assert(required@ == before_required);
            }
            assert(items_view(required@) == required_keys(t.properties@.take(i + 1)));
        }
        i += 1;
    }
    assert(t.properties@.take(t.properties.len() as int) == t.properties@);
    let es = vec![
        (owned("additionalProperties"), Json::Bool(true)),
        (owned("properties"), Json::Object(properties)),
        (owned("required"), Json::Array(required)),
        (owned("type"), Json::Str(owned("object"))),
    ];
    proof {
        lemma_entries_view(es@);
        assert(entries_view(es@) =~= seq![
            ("additionalProperties"@, JsonV::Bool(true)),
            ("properties"@, JsonV::Object(property_types(t.properties@))),
            ("required"@, JsonV::Array(required_keys(t.properties@))),
            ("type"@, JsonV::Str("object"@)),
        ]);
    }
    Json::Object(es)
}

/// The value given for `key` among the first `n` key/value pairs of the
/// arguments; a later pair replaces an earlier one.
pub open spec fn arg_value(args: Seq<Seq<char>>, key: Seq<char>, n: nat) -> Option<Seq<char>>
    decreases n,
{
    if n == 0 {
        None
    } else if args[2 * (n - 1)] == key {
        Some(args[2 * (n - 1) + 1])
    } else {
        arg_value(args, key, (n - 1) as nat)
    }
}

/// The number of complete key/value pairs among the arguments.
pub open spec fn pair_count(args: Seq<Seq<char>>) -> nat {
    args.len() / 2
}

/// The companion's arguments: the client id, token and broker endpoint,
/// each given as `--key value`; each is required, in that order.
pub open spec fn parse_args_spec(args: Seq<Seq<char>>) -> Result<(Seq<char>, Seq<char>, Seq<char>), Seq<char>> {
    let n = pair_count(args);
    match arg_value(args, "--client-id"@, n) {
        None => Err("--client-id is required"@),
        Some(c) => match arg_value(args, "--token"@, n) {
            None => Err("--token is required"@),
            Some(t) => match arg_value(args, "--endpoint"@, n) {
                None => Err("--endpoint is required"@),
                Some(e) => Ok((c, t, e)),
            },
        },
    }
}

/// Reads the companion's arguments (the program name already removed).
pub fn parse_args(args: &Vec<String>) -> (r: Result<(String, String, String), String>)
    ensures
        match parse_args_spec(strings_of(args@)) {
            Ok((c, t, e)) => match r {
                Ok((rc, rt, re)) => rc@ == c && rt@ == t && re@ == e,
                Err(_) => false,
            },
            Err(m) => match r {
                Err(rm) => rm@ == m,
                Ok(_) => false,
            },
        },
{
    let ghost sa = strings_of(args@);
    let mut client: Option<String> = None;
    let mut token: Option<String> = None;
    let mut endpoint: Option<String> = None;
    let mut p: usize = 0;
    while p < args.len() / 2
        invariant
            p <= args.len() / 2,
            sa == strings_of(args@),
            sa.len() == args.len(),
            opt_view(client) == arg_value(sa, "--client-id"@, p as nat),
            opt_view(token) == arg_value(sa, "--token"@, p as nat),
            opt_view(endpoint) == arg_value(sa, "--endpoint"@, p as nat),
        decreases args.len() / 2 - p,
    {
        let key = args[2 * p].as_str();
        let value = &args[2 * p + 1];
        assert(sa[2 * p as int] == key@);
        assert(sa[2 * p as int + 1] == value@);
        if str_eq(key, "--client-id") {
            client = Some(value.clone());
        }
        if str_eq(key, "--token") {
            token = Some(value.clone());
        }
        if str_eq(key, "--endpoint") {
            endpoint = Some(value.clone());
        }
        p += 1;
    }
    let c = match client {
        Some(c) => c,
        None => return Err(owned("--client-id is required")),
    };
    let t = match token {
        Some(t) => t,
        None => return Err(owned("--token is required")),
    };
    let e = match endpoint {
        Some(e) => e,
        None => return Err(owned("--endpoint is required")),
    };
    Ok((c, t, e))
}

/// The first message of a companion: a `hello` with its credentials.
pub fn hello_request(request_id: String, client_id: &str, token: &str) -> (r: BrokerRequest)
    ensures
        r.request_id@ == request_id@,
        r.client_id@ == client_id@,
        r.token@ == token@,
        r.session_id is None,
        r.action@ == "hello"@,
        r.tool_name is None,
        r.arguments@ == JsonV::Null,
        opt_view(r.protocol_version) == Some(PROTOCOL_VERSION@),
{
    BrokerRequest {
        request_id,
        client_id: owned(client_id),
        token: owned(token),
        session_id: None,
        action: owned("hello"),
        tool_name: None,
        arguments: Json::Null,
        protocol_version: Some(owned(PROTOCOL_VERSION)),
    }
}

/// A tool call forwarded to the broker within the session.
pub fn call_request(
    request_id: String,
    client_id: &str,
    token: &str,
    session_id: &str,
    tool_name: String,
    arguments: Vec<(String, Json)>,
) -> (r: BrokerRequest)
    ensures
        r.request_id@ == request_id@,
        r.client_id@ == client_id@,
        r.token@ == token@,
        opt_view(r.session_id) == Some(session_id@),
        r.action@ == "call"@,
        opt_view(r.tool_name) == Some(tool_name@),
        r.arguments@ == JsonV::Object(entries_view(arguments@)),
        opt_view(r.protocol_version) == Some(PROTOCOL_VERSION@),
{
    BrokerRequest {
        request_id,
        client_id: owned(client_id),
        token: owned(token),
        session_id: Some(owned(session_id)),
        action: owned("call"),
        tool_name: Some(tool_name),
        arguments: Json::Object(arguments),
        protocol_version: Some(owned(PROTOCOL_VERSION)),
    }
}

/// The session that the broker's answer to `hello` opens: a refusal gives
/// its message (or a default one), and an answer without a session fails.
pub open spec fn hello_session_spec(
    ok: bool,
    error_message: Option<Seq<char>>,
    session_id: Option<Seq<char>>,
) -> Result<Seq<char>, Seq<char>> {
    if !ok {
        Err(match error_message {
            Some(m) => m,
            None => "TesAPI authentication failed"@,
        })
    } else {
        match session_id {
            Some(s) => Ok(s),
            None => Err("TesAPI did not create a session"@),
        }
    }
}

/// The session opened by the broker's answer to `hello`.
pub fn hello_session(response: BrokerResponse) -> (r: Result<String, String>)
    ensures
        match hello_session_spec(response.ok, opt_view(response.error_message), opt_view(response.session_id)) {
            Ok(s) => match r {
                Ok(v) => v@ == s,
                Err(_) => false,
            },
            Err(m) => match r {
                Err(v) => v@ == m,
                Ok(_) => false,
            },
        },
{
    if !response.ok {
        return Err(match response.error_message {
            Some(m) => m,
            None => owned("TesAPI authentication failed"),
        });
    }
    match response.session_id {
        Some(s) => Ok(s),
        None => Err(owned("TesAPI did not create a session")),
    }
}

/// What the companion answers its MCP client for one tool call.
#[derive(Debug)]
pub enum CallReply {
    /// The tool's structured result.
    Structured(Json),
    /// An error, as the JSON text content of the reply.
    Error(Json),
}

/// The error content `{"code": .., "message": ..}`.
pub open spec fn error_content_spec(code: Option<Seq<char>>, message: Option<Seq<char>>) -> JsonV {
    JsonV::Object(seq![
        ("code"@, match code { Some(c) => JsonV::Str(c), None => JsonV::Null }),
        ("message"@, match message { Some(m) => JsonV::Str(m), None => JsonV::Null }),
    ])
}

fn error_content(code: Option<String>, message: Option<String>) -> (r: Json)
    ensures
        r@ == error_content_spec(opt_view(code), opt_view(message)),
{
    let ghost cv = opt_view(code);
    let ghost mv = opt_view(message);
    let c = match &code {
        Some(c) => Json::Str(c.clone()),
        None => Json::Null,
    };
    let m = match &message {
        Some(m) => Json::Str(m.clone()),
        None => Json::Null,
    };
    let es = vec![(owned("code"), c), (owned("message"), m)];
    proof {
        lemma_entries_view(es@);
        let want = seq![
            ("code"@, match cv { Some(x) => JsonV::Str(x), None => JsonV::Null }),
            ("message"@, match mv { Some(x) => JsonV::Str(x), None => JsonV::Null }),
        ];
        assert(entries_view(es@) =~= want);
        assert(error_content_spec(cv, mv) == JsonV::Object(want));
    }
    Json::Object(es)
}

/// The reply to a tool call from the broker's answer: the result of a
/// successful answer (`null` when it has none), the code and message of a
/// failed one, and `TESAPI_UNAVAILABLE` when the broker could not be reached.
pub fn call_reply(outcome: Result<BrokerResponse, String>) -> (r: CallReply)
    ensures
        match outcome {
            Ok(resp) => if resp.ok {
                r matches CallReply::Structured(j) && j@ == (match resp.result {
                    Some(v) => v@,
                    None => JsonV::Null,
                })
            } else {
                r matches CallReply::Error(j) && j@ == error_content_spec(opt_view(resp.error_code), opt_view(resp.error_message))
            },
            Err(m) => r matches CallReply::Error(j) && j@ == error_content_spec(Some("TESAPI_UNAVAILABLE"@), Some(m@)),
        },
{
    match outcome {
        Ok(resp) => {
            if resp.ok {
                CallReply::Structured(match resp.result {
                    Some(v) => v,
                    None => Json::Null,
                })
            } else {
                CallReply::Error(error_content(resp.error_code, resp.error_message))
            }
        },
        Err(m) => CallReply::Error(error_content(Some(owned("TESAPI_UNAVAILABLE")), Some(m))),
    }
}

/// The names under which the TesAPI executable is looked for beside the
/// companion.
pub fn executable_names(windows: bool) -> (r: Vec<&'static str>)
    ensures
        windows ==> r@ == seq!["tesapi.exe", "TesAPI.exe"],
        !windows ==> r@ == seq!["tesapi", "TesAPI"],
{
    if windows {
        vec!["tesapi.exe", "TesAPI.exe"]
    } else {
        vec!["tesapi", "TesAPI"]
    }
}

} // verus!
