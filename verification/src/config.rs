use vstd::prelude::*;

pub mod codex;

use crate::json::{string_array, json_parse_result, parse_json_result, entries_view, field, field_array, field_bool, field_str, items_view, json_pretty_text, json_to_string_pretty, json_view, lemma_entries_view, lemma_items_view, obj_index, obj_insert, obj_lookup, set_field, Json, JsonV};
use crate::text::{from_chars, owned, push_str_chars, str_eq, strings_of, to_chars};
use crate::types::{ClientOverview, ConfigPreview, McpClient};

verus! {

/// A supported MCP client: its kind, its display name, where its
/// configuration lives (none for manual configuration), and the programs
/// whose presence shows that it is installed.
#[derive(Debug)]
pub struct ClientSpec {
    pub kind: String,
    pub display: String,
    pub path: Option<String>,
    pub executables: Vec<String>,
}

/// A kind of MCP client that TesAPI can configure: its name, what the
/// overview calls it, and the programs whose presence shows it installed.
#[derive(Debug)]
pub struct ClientKind {
    pub kind: &'static str,
    pub display: &'static str,
    pub executables: Vec<&'static str>,
}

/// The supported clients as (kind, display name, programs), in order.
pub open spec fn client_kinds_spec() -> Seq<(Seq<char>, Seq<char>, Seq<Seq<char>>)> {
    seq![
        ("codex"@, "Codex"@, seq!["codex"@]),
        ("cursor"@, "Cursor"@, seq!["cursor"@]),
        ("manual"@, "Manual configuration"@, seq![]),
    ]
}

pub open spec fn client_kind_view(k: ClientKind) -> (Seq<char>, Seq<char>, Seq<Seq<char>>) {
    (k.kind@, k.display@, k.executables@.map_values(|e: &'static str| e@))
}

/// The supported clients.
pub fn client_kinds() -> (r: Vec<ClientKind>)
    ensures
        r.len() == client_kinds_spec().len(),
        forall|i: int| 0 <= i < r.len() ==> client_kind_view(#[trigger] r@[i]) == client_kinds_spec()[i],
{
    let r = vec![
        ClientKind { kind: "codex", display: "Codex", executables: vec!["codex"] },
        ClientKind { kind: "cursor", display: "Cursor", executables: vec!["cursor"] },
        ClientKind { kind: "manual", display: "Manual configuration", executables: vec![] },
    ];
    proof {
        let s = client_kinds_spec();
        assert(r@[0].executables@.map_values(|e: &'static str| e@) =~= s[0].2);
        assert(r@[1].executables@.map_values(|e: &'static str| e@) =~= s[1].2);
        assert(r@[2].executables@.map_values(|e: &'static str| e@) =~= s[2].2);

        assert forall|i: int| 0 <= i < r.len() implies client_kind_view(#[trigger] r@[i]) == client_kinds_spec()[i] by {
            assert(i == 0 || i == 1 || i == 2);
        }
    }
    r
}

/// Whether TesAPI can configure clients of this kind.
pub fn is_supported_kind(kind: &str) -> (r: bool)
    ensures
        r <==> exists|i: int| 0 <= i < client_kinds_spec().len() && #[trigger] client_kinds_spec()[i].0 == kind@,
{
    let all = client_kinds();
    let mut i: usize = 0;
    while i < all.len()
        invariant
            i <= all.len(),
            all.len() == client_kinds_spec().len(),
            forall|k: int| 0 <= k < all.len() ==> client_kind_view(#[trigger] all@[k]) == client_kinds_spec()[k],
            forall|k: int| 0 <= k < i ==> client_kinds_spec()[k].0 != kind@,
        decreases all.len() - i,
    {
        assert(client_kind_view(all@[i as int]) == client_kinds_spec()[i as int]);
        if str_eq(all[i].kind, kind) {
            assert(client_kinds_spec()[i as int].0 == kind@);
            return true;
        }
        i += 1;
    }
    false
}

/// The first supported client of a kind.
pub open spec fn first_of_kind(all: Seq<ClientSpec>, kind: Seq<char>) -> Option<int>
    decreases all.len(),
{
    if all.len() == 0 {
        None
    } else if all[0].kind@ == kind {
        Some(0)
    } else {
        match first_of_kind(all.drop_first(), kind) {
            Some(i) => Some(i + 1),
            None => None,
        }
    }
}

/// The supported client of a kind, refused when there is none.
pub fn spec(kind: &str, all: Vec<ClientSpec>) -> (r: Result<ClientSpec, String>)
    ensures
        match r {
            Ok(s) => first_of_kind(all@, kind@) matches Some(i) && s == all@[i],
            Err(e) => first_of_kind(all@, kind@) is None && e@ == "Unsupported MCP client"@,
        },
{
    let ghost every = all@;
    let mut rest = all;
    let mut i: usize = 0;
    assert(every.skip(0) == every);
    while i < rest.len()
        invariant
            i <= rest.len(),
            rest@ == every,
            every == all@,
            first_of_kind(every, kind@) == (match first_of_kind(every.skip(i as int), kind@) {
                Some(k) => Some(k + i),
                None => None::<int>,
            }),
        decreases rest.len() - i,
    {
        assert(every.skip(i as int).drop_first() == every.skip(i + 1));
        assert(every.skip(i as int)[0] == every[i as int]);
        if str_eq(rest[i].kind.as_str(), kind) {
            assert(first_of_kind(every.skip(i as int), kind@) == Some(0int));
            let found = rest.remove(i);
            assert(found == every[i as int]);
            assert(first_of_kind(every, kind@) == Some(i as int));
            return Ok(found);
        }
        i += 1;
    }
    Err(owned("Unsupported MCP client"))
}

/// How a client's configuration file is found by the overview.
pub enum EntryState {
    /// The file does not parse.
    Invalid,
    /// The file has no TesAPI entry.
    Missing,
    /// The file has a TesAPI entry; whether it matches this installation.
    Present { current: bool },
}

/// The configuration status the overview shows: manual when the client has
/// no configuration file, not configured when the file or the entry is
/// missing, invalid when the file does not parse, configured when the entry
/// matches the registered client, outdated when it does not, and manual
/// when no client is registered for it.
pub open spec fn configuration_status_spec(has_path: bool, path_exists: bool, state: EntryState, registered: bool) -> Seq<char> {
    if !has_path {
        "managed_manually"@
    } else if !path_exists {
        "not_configured"@
    } else {
        match state {
            EntryState::Invalid => "invalid"@,
            EntryState::Missing => "not_configured"@,
            EntryState::Present { current } => if !registered {
                "managed_manually"@
            } else if current {
                "configured"@
            } else {
                "outdated"@
            },
        }
    }
}

/// The configuration status of one client.
pub fn configuration_status(has_path: bool, path_exists: bool, state: EntryState, registered: bool) -> (r: String)
    ensures
        r@ == configuration_status_spec(has_path, path_exists, state, registered),
{
    if !has_path {
        owned("managed_manually")
    } else if !path_exists {
        owned("not_configured")
    } else {
        match state {
            EntryState::Invalid => owned("invalid"),
            EntryState::Missing => owned("not_configured"),
            EntryState::Present { current } => if !registered {
                owned("managed_manually")
            } else if current {
                owned("configured")
            } else {
                owned("outdated")
            },
        }
    }
}

/// The arguments that start the companion for a client.
pub open spec fn companion_args(client_id: Seq<char>, token: Seq<char>, endpoint: Seq<char>) -> Seq<Seq<char>> {
    seq!["--client-id"@, client_id, "--token"@, token, "--endpoint"@, endpoint]
}

/// The companion arguments for a client.
pub fn companion_arguments(client_id: &str, token: &str, endpoint: &str) -> (r: Vec<String>)
    ensures
        strings_of(r@) == companion_args(client_id@, token@, endpoint@),
{
    let r = vec![owned("--client-id"), owned(client_id), owned("--token"), owned(token), owned("--endpoint"), owned(endpoint)];
    assert(strings_of(r@) =~= companion_args(client_id@, token@, endpoint@));
    r
}

// ----- JSON client configuration ---------------------------------------------

/// The TesAPI entry of a JSON configuration (`/mcpServers/tesapi`).
pub open spec fn json_entry(doc: JsonV) -> Option<JsonV> {
    match field(doc, "mcpServers"@) {
        Some(servers) => field(servers, "tesapi"@),
        None => None,
    }
}

/// A JSON configuration has a TesAPI entry in its `mcpServers` object.
pub open spec fn json_entry_exists_spec(doc: JsonV) -> bool {
    json_entry(doc) is Some
}

/// Some argument is the text `t`.
pub open spec fn args_contain(args: Seq<JsonV>, t: Seq<char>) -> bool {
    exists|i: int| 0 <= i < args.len() && #[trigger] args[i] == JsonV::Str(t)
}

/// The entry is managed by TesAPI, runs `command`, and passes the endpoint
/// and the client id among its arguments.
pub open spec fn json_entry_current_spec(doc: JsonV, command: Seq<char>, endpoint: Seq<char>, client_id: Seq<char>) -> bool {
    match json_entry(doc) {
        Some(entry) => {
            let args = match field_array(entry, "args"@) {
                Some(a) => a,
                None => seq![],
            };
            &&& field_bool(entry, "_tesapiManaged"@) == Some(true)
            &&& field_str(entry, "command"@) == Some(command)
            &&& args_contain(args, endpoint)
            &&& args_contain(args, client_id)
        },
        None => false,
    }
}

/// Whether a JSON client configuration has a TesAPI entry.
pub fn json_entry_exists(doc: &Json) -> (r: bool)
    ensures
        r == json_entry_exists_spec(doc@),
{
    match doc.get("mcpServers") {
        Some(servers) => servers.get("tesapi").is_some(),
        None => false,
    }
}

fn args_contain_exec(args: &Vec<Json>, t: &str) -> (r: bool)
    ensures
        r == args_contain(items_view(args@), t@),
{
    proof {
        lemma_items_view(args@);
    }
    let ghost av = items_view(args@);
    let mut i: usize = 0;
    while i < args.len()
        invariant
            i <= args.len(),
            av == items_view(args@),
            av.len() == args.len(),
            forall|m: int| 0 <= m < args.len() ==> #[trigger] av[m] == json_view(args@[m]),
            forall|m: int| 0 <= m < i ==> #[trigger] av[m] != JsonV::Str(t@),
        decreases args.len() - i,
    {
        match &args[i] {
            Json::Str(s) => {
                if str_eq(s.as_str(), t) {
                    assert(av[i as int] == JsonV::Str(t@));
                    return true;
                }
            },
            _ => {},
        }
        i += 1;
    }
    false
}

/// Whether the TesAPI entry of a JSON configuration matches this installation.
pub fn json_entry_current(doc: &Json, command: &str, endpoint: &str, client_id: &str) -> (r: bool)
    ensures
        r == json_entry_current_spec(doc@, command@, endpoint@, client_id@),
{
    let entry = match doc.get("mcpServers") {
        Some(servers) => match servers.get("tesapi") {
            Some(e) => e,
            None => return false,
        },
        None => return false,
    };
    let empty: Vec<Json> = Vec::new();
    let args: &Vec<Json> = match entry.get_array("args") {
        Some(a) => a,
        None => &empty,
    };
    let managed = match entry.get_bool("_tesapiManaged") {
        Some(b) => b,
        None => false,
    };
    let same_command = match entry.get_str("command") {
        Some(c) => str_eq(c.as_str(), command),
        None => false,
    };
    managed && same_command && args_contain_exec(args, endpoint) && args_contain_exec(args, client_id)
}

/// The TesAPI entry that installation writes: the command, its arguments,
/// and the mark that TesAPI manages it.
pub open spec fn json_server_entry(command: Seq<char>, args: Seq<Seq<char>>) -> JsonV {
    JsonV::Object(seq![
        ("_tesapiManaged"@, JsonV::Bool(true)),
        ("args"@, JsonV::Array(args.map_values(|a: Seq<char>| JsonV::Str(a)))),
        ("command"@, JsonV::Str(command)),
    ])
}

/// What `patch` makes of a JSON configuration: the TesAPI entry set in
/// `mcpServers` (created when absent), everything else kept; refused when
/// the root or `mcpServers` is not an object.
pub open spec fn json_patch_spec(doc: JsonV, command: Seq<char>, args: Seq<Seq<char>>) -> Result<JsonV, Seq<char>> {
    match doc {
        JsonV::Object(_) => match field(doc, "mcpServers"@) {
            None => Ok(set_field(doc, "mcpServers"@, JsonV::Object(seq![("tesapi"@, json_server_entry(command, args))]))),
            Some(JsonV::Object(es)) => Ok(set_field(doc, "mcpServers"@, JsonV::Object(obj_insert(es, "tesapi"@, json_server_entry(command, args))))),
            Some(_) => Err("mcpServers must be a JSON object"@),
        },
        _ => Err("Client configuration root must be a JSON object"@),
    }
}

fn server_entry(command: &str, args: &[String]) -> (r: Json)
    ensures
        r@ == json_server_entry(command@, strings_of(args@)),
{
    let es = vec![
        (owned("_tesapiManaged"), Json::Bool(true)),
        (owned("args"), string_array(args)),
        (owned("command"), Json::Str(owned(command))),
    ];
    proof {
        lemma_entries_view(es@);
        assert(entries_view(es@) =~= seq![
            ("_tesapiManaged"@, JsonV::Bool(true)),
            ("args"@, JsonV::Array(strings_of(args@).map_values(|a: Seq<char>| JsonV::Str(a)))),
            ("command"@, JsonV::Str(command@)),
        ]);
    }
    Json::Object(es)
}

/// Sets the TesAPI entry of a JSON client configuration.
pub fn json_patch(doc: Json, command: &str, args: &[String]) -> (r: Result<Json, String>)
    ensures
        match r {
            Ok(v) => json_patch_spec(doc@, command@, strings_of(args@)) == Ok::<JsonV, Seq<char>>(v@),
            Err(e) => json_patch_spec(doc@, command@, strings_of(args@)) == Err::<JsonV, Seq<char>>(e@),
        },
{
    match doc {
        Json::Object(_) => {},
        _ => return Err(owned("Client configuration root must be a JSON object")),
    }
    let entry = server_entry(command, args);
    let servers = match doc.get("mcpServers") {
        None => {
            let ghost ev = entry@;
            let es = vec![(owned("tesapi"), entry)];
            proof {
                lemma_entries_view(es@);
                assert(entries_view(es@) =~= seq![("tesapi"@, ev)]);
            }
            Json::Object(es)
        },
        Some(Json::Object(es)) => {
            let ghost old_view = entries_view(es@);
            assert(field(doc@, "mcpServers"@) == Some(JsonV::Object(old_view)));
            let mut copy = match doc.get("mcpServers").unwrap().deep_clone() {
                Json::Object(c) => c,
                _ => Vec::new(),
            };
            assert(entries_view(copy@) == old_view);
            crate::json::obj_set(&mut copy, "tesapi", entry);
            Json::Object(copy)
        },
        Some(_) => return Err(owned("mcpServers must be a JSON object")),
    };
    Ok(crate::json::with_field(doc, "mcpServers", servers))
}

/// The entries without the first one for `key` (`Map::remove`).
pub open spec fn obj_remove(es: Seq<(Seq<char>, JsonV)>, key: Seq<char>) -> Seq<(Seq<char>, JsonV)> {
    match obj_index(es, key) {
        Some(i) => es.remove(i),
        None => es,
    }
}

/// What `remove` makes of a JSON configuration: when `mcpServers` is an
/// object, its TesAPI entry is removed, but only when TesAPI manages it;
/// otherwise the configuration is kept.
pub open spec fn json_remove_spec(doc: JsonV) -> Result<JsonV, Seq<char>> {
    match field(doc, "mcpServers"@) {
        Some(JsonV::Object(es)) => {
            let managed = match obj_lookup(es, "tesapi"@) {
                Some(entry) => field_bool(entry, "_tesapiManaged"@) == Some(true),
                None => false,
            };
            if !managed {
                Err("The TesAPI entry is managed manually and was not removed"@)
            } else {
                Ok(set_field(doc, "mcpServers"@, JsonV::Object(obj_remove(es, "tesapi"@))))
            }
        },
        _ => Ok(doc),
    }
}

/// Removes the TesAPI entry of a JSON client configuration, when TesAPI manages it.
pub fn json_remove(doc: Json) -> (r: Result<Json, String>)
    ensures
        match r {
            Ok(v) => json_remove_spec(doc@) == Ok::<JsonV, Seq<char>>(v@),
            Err(e) => json_remove_spec(doc@) == Err::<JsonV, Seq<char>>(e@),
        },
{
    let mut es = match doc.get("mcpServers") {
        Some(Json::Object(_)) => match doc.get("mcpServers").unwrap().deep_clone() {
            Json::Object(c) => c,
            _ => Vec::new(),
        },
        _ => return Ok(doc),
    };
    let managed = match crate::json::entry_value(&es, "tesapi") {
        Some(entry) => match entry.get_bool("_tesapiManaged") {
            Some(b) => b,
            None => false,
        },
        None => false,
    };
    if !managed {
        return Err(owned("The TesAPI entry is managed manually and was not removed"));
    }
    proof {
        crate::json::lemma_obj_index_lookup(entries_view(es@), "tesapi"@);
        lemma_entries_view(es@);
    }
    match crate::json::find_entry(&es, "tesapi") {
        Some(i) => {
            let ghost before = es@;
            es.remove(i);
            proof {
                lemma_entries_view(before);
                lemma_entries_view(es@);
                assert(entries_view(es@) =~= entries_view(before).remove(i as int));
            }
        },
        None => {},
    }
    Ok(crate::json::with_field(doc, "mcpServers", Json::Object(es)))
}

/// The configuration snippet shown for a JSON client.
pub open spec fn json_snippet_doc(command: Seq<char>, args: Seq<Seq<char>>) -> JsonV {
    JsonV::Object(seq![
        ("mcpServers"@, JsonV::Object(seq![
            ("tesapi"@, JsonV::Object(seq![
                ("args"@, JsonV::Array(args.map_values(|a: Seq<char>| JsonV::Str(a)))),
                ("command"@, JsonV::Str(command)),
            ])),
        ])),
    ])
}

/// The pretty JSON snippet that configures a client by hand.
pub fn json_snippet(command: &str, args: &[String]) -> (r: String)
    ensures
        r@ == json_pretty_text(json_snippet_doc(command@, strings_of(args@))),
{
    let arr = string_array(args);
    let ghost av = arr@;
    let server = vec![(owned("args"), arr), (owned("command"), Json::Str(owned(command)))];
    let ghost sv = JsonV::Object(seq![("args"@, av), ("command"@, JsonV::Str(command@))]);
    proof {
        lemma_entries_view(server@);
        assert(entries_view(server@) =~= seq![("args"@, av), ("command"@, JsonV::Str(command@))]);
    }
    let servers = vec![(owned("tesapi"), Json::Object(server))];
    proof {
        lemma_entries_view(servers@);
        assert(entries_view(servers@) =~= seq![("tesapi"@, sv)]);
    }
    let ghost tv = JsonV::Object(seq![("tesapi"@, sv)]);
    let root = vec![(owned("mcpServers"), Json::Object(servers))];
    proof {
        lemma_entries_view(root@);
        assert(entries_view(root@) =~= seq![("mcpServers"@, tv)]);
    }
    let doc = Json::Object(root);
    assert(doc@ == json_snippet_doc(command@, strings_of(args@)));
    json_to_string_pretty(&doc)
}

/// What a JSON client configuration file holds: an empty object when there
/// is no file, else the parsed document, refused when it is not JSON.
pub open spec fn json_config_spec(text: Option<Seq<char>>) -> Result<JsonV, Seq<char>> {
    match text {
        None => Ok(JsonV::Object(seq![])),
        Some(t) => match json_parse_result(t) {
            Ok(v) => Ok(v),
            Err(e) => Err("Client configuration is invalid JSON: "@ + e),
        },
    }
}

/// Reads a JSON client configuration from the file's text (`None` when the
/// file does not exist).
pub fn json_config(text: Option<&str>) -> (r: Result<Json, String>)
    ensures
        match r {
            Ok(v) => json_config_spec(crate::text::opt_ref_view(text)) == Ok::<JsonV, Seq<char>>(v@),
            Err(e) => json_config_spec(crate::text::opt_ref_view(text)) == Err::<JsonV, Seq<char>>(e@),
        },
{
    match text {
        None => {
            let empty: Vec<(String, Json)> = Vec::new();
            assert(entries_view(empty@) =~= seq![]);
            Ok(Json::Object(empty))
        },
        Some(t) => match parse_json_result(t) {
            Ok(v) => Ok(v),
            Err(e) => {
                let mut m = to_chars("Client configuration is invalid JSON: ");
                push_str_chars(&mut m, e.as_str());
                Err(from_chars(m.as_slice()))
            },
        },
    }
}

/// The text written to a JSON configuration file: pretty JSON and a newline.
pub fn json_file_text(doc: &Json) -> (r: String)
    ensures
        r@ == json_pretty_text(doc@).push('\n'),
{
    let mut text = json_to_string_pretty(doc);
    text.push('\n');
    text
}

// ----- installation ----------------------------------------------------------

/// The message of a failed change whose previous file was put back.
pub open spec fn restored_message(error: Seq<char>) -> Seq<char> {
    error + ". The previous configuration was restored."@
}

/// The error reported after a failed change was rolled back.
pub fn restored_error(error: &str) -> (r: String)
    ensures
        r@ == restored_message(error@),
{
    let mut m = to_chars(error);
    push_str_chars(&mut m, ". The previous configuration was restored.");
    from_chars(m.as_slice())
}

/// After a change, the entry must be there (`written`) or gone (not `written`).
pub fn verify_change(written: bool, exists: bool) -> (r: Result<(), String>)
    ensures
        r is Ok <==> exists == written,
        r matches Err(e) ==> e@ == (if written { "TesAPI configuration entry was not written"@ } else { "TesAPI configuration entry was not removed"@ }),
{
    if exists == written {
        Ok(())
    } else if written {
        Err(owned("TesAPI configuration entry was not written"))
    } else {
        Err(owned("TesAPI configuration entry was not removed"))
    }
}

/// What `preview` shows for a client before installation.
pub open spec fn preview_spec(p: ConfigPreview, kind: Seq<char>, display: Seq<char>, path: Option<Seq<char>>, path_exists: bool, command: Seq<char>, endpoint: Seq<char>, snippet: Seq<char>) -> bool {
    &&& p.kind@ == kind
    &&& p.display_name@ == display
    &&& p.target_path@ == (match path {
        Some(t) => t,
        None => "Manual configuration"@,
    })
    &&& p.operation@ == (if path is Some && path_exists { "patch"@ } else { "create"@ })
    &&& p.command@ == command
    &&& strings_of(p.args@) == companion_args("<generated-on-install>"@, "<generated-on-install>"@, endpoint)
    &&& p.snippet@ == snippet
    &&& p.preserves_existing
    &&& p.backup_required == (path is Some && path_exists)
}

/// The preview of installing a client: the arguments with placeholders for
/// the generated id and token, and whether the file is created or patched.
pub fn preview(spec: &ClientSpec, path_exists: bool, command: &str, endpoint: &str, snippet: String) -> (r: ConfigPreview)
    ensures
        preview_spec(r, spec.kind@, spec.display@, crate::text::opt_view(spec.path), path_exists, command@, endpoint@, snippet@),
{
    let target = match &spec.path {
        Some(p) => p.clone(),
        None => owned("Manual configuration"),
    };
    let existing = spec.path.is_some() && path_exists;
    ConfigPreview {
        kind: spec.kind.clone(),
        display_name: spec.display.clone(),
        target_path: target,
        operation: if existing { owned("patch") } else { owned("create") },
        command: owned(command),
        args: companion_arguments("<generated-on-install>", "<generated-on-install>", endpoint),
        snippet,
        preserves_existing: true,
        backup_required: existing,
    }
}

/// Whether a configuration location may be modified: not world-writable,
/// and owned by the user that runs TesAPI.
pub open spec fn metadata_check(mode: u32, uid: u32, euid: u32) -> Result<(), Seq<char>> {
    if mode & 2 != 0 {
        Err("Refusing to modify configuration in a world-writable location"@)
    } else if uid != euid {
        Err("Refusing to modify configuration owned by another user"@)
    } else {
        Ok(())
    }
}

/// Checks the permission bits and owner of a configuration location against
/// the effective user id.
pub fn validate_unix_metadata(mode: u32, uid: u32, euid: u32) -> (r: Result<(), String>)
    ensures
        match r {
            Ok(()) => metadata_check(mode, uid, euid) is Ok,
            Err(e) => metadata_check(mode, uid, euid) == Err::<(), Seq<char>>(e@),
        },
{
    if mode & 2 != 0 {
        Err(owned("Refusing to modify configuration in a world-writable location"))
    } else if uid != euid {
        Err(owned("Refusing to modify configuration owned by another user"))
    } else {
        Ok(())
    }
}

/// A registered client matches a supported client when the kind and the
/// configuration path are the same.
pub open spec fn client_matches(c: McpClient, kind: Seq<char>, path: Option<Seq<char>>) -> bool {
    c.kind@ == kind && crate::text::opt_view(c.config_path) == path
}

/// The first registered client of a kind with a configuration path.
pub fn find_client(managed: &Vec<McpClient>, kind: &str, path: &Option<String>) -> (r: Option<McpClient>)
    ensures
        match r {
            Some(c) => exists|i: int| 0 <= i < managed.len() && managed@[i] == c
                && client_matches(c, kind@, crate::text::opt_view(*path))
                && forall|k: int| 0 <= k < i ==> !client_matches(#[trigger] managed@[k], kind@, crate::text::opt_view(*path)),
            None => forall|k: int| 0 <= k < managed.len() ==> !client_matches(#[trigger] managed@[k], kind@, crate::text::opt_view(*path)),
        },
{
    let mut i: usize = 0;
    while i < managed.len()
        invariant
            i <= managed.len(),
            forall|k: int| 0 <= k < i ==> !client_matches(#[trigger] managed@[k], kind@, crate::text::opt_view(*path)),
        decreases managed.len() - i,
    {
        let c = &managed[i];
        let same_path = match (&c.config_path, path) {
            (Some(a), Some(b)) => str_eq(a.as_str(), b.as_str()),
            (None, None) => true,
            _ => false,
        };
        if str_eq(c.kind.as_str(), kind) && same_path {
            return Some(c.clone());
        }
        i += 1;
    }
    None
}

/// A client counts as installed when it is configured by hand, or one of
/// its programs, one of its install locations or its configuration file exists.
pub fn is_detected(kind: &str, executable_found: bool, install_found: bool, path_exists: bool) -> (b: bool)
    ensures
        b == (kind@ == "manual"@ || executable_found || install_found || path_exists),
{
    str_eq(kind, "manual") || executable_found || install_found || path_exists
}

/// What the overview shows of one supported client.
pub fn client_overview(
    spec: &ClientSpec,
    detected: bool,
    configuration_status: String,
    client: Option<McpClient>,
) -> (r: ClientOverview)
    ensures
        r.kind@ == spec.kind@,
        r.display_name@ == spec.display@,
        r.detected == detected,
        r.installation_status@ == (if detected { "detected"@ } else { "not_detected"@ }),
        r.configuration_status@ == configuration_status@,
        crate::text::opt_view(r.config_path) == crate::text::opt_view(spec.path),
        r.client == client,
{
    ClientOverview {
        kind: spec.kind.clone(),
        display_name: spec.display.clone(),
        detected,
        installation_status: if detected { owned("detected") } else { owned("not_detected") },
        configuration_status,
        config_path: crate::text::clone_opt_string(&spec.path),
        client,
    }
}

/// The configuration file that installing a client patches; a client
/// configured by hand has none.
pub fn install_target(spec: &ClientSpec) -> (r: Result<String, String>)
    ensures
        match spec.path {
            Some(p) => r matches Ok(t) && t@ == p@,
            None => r matches Err(e) && e@ == "Manual configuration cannot be installed automatically"@,
        },
{
    match &spec.path {
        Some(p) => Ok(p.clone()),
        None => Err(owned("Manual configuration cannot be installed automatically")),
    }
}

/// The display name of a client configured by hand.
pub fn manual_name(display: &str) -> (r: String)
    ensures
        r@ == display@ + " (manual)"@,
{
    let mut m = to_chars(display);
    push_str_chars(&mut m, " (manual)");
    from_chars(m.as_slice())
}

/// The configuration generated for a client configured by hand.
pub fn manual_preview(format_kind: &str, display: &str, command: &str, args: Vec<String>, snippet: String) -> (r: ConfigPreview)
    ensures
        r.kind@ == format_kind@,
        r.display_name@ == display@,
        r.target_path@ == "Your MCP client configuration"@,
        r.operation@ == "generated"@,
        r.command@ == command@,
        r.args@ == args@,
        r.snippet@ == snippet@,
        r.preserves_existing,
        !r.backup_required,
{
    ConfigPreview {
        kind: owned(format_kind),
        display_name: owned(display),
        target_path: owned("Your MCP client configuration"),
        operation: owned("generated"),
        command: owned(command),
        args,
        snippet,
        preserves_existing: true,
        backup_required: false,
    }
}

} // verus!
