use vstd::prelude::*;

use toml_edit::{value, Array, DocumentMut, Item, Table};

use crate::text::{from_chars, owned, push_str_chars, str_eq, strings_of, to_chars};

verus! {

/// What `mcp_servers` is in a Codex configuration.
#[derive(Debug, Clone, Copy, PartialEq, Eq, Structural)]
pub enum ServersKind {
    Absent,
    Table,
    InlineTable,
    Other,
}

/// What the Codex configuration says of the TesAPI server: what
/// `mcp_servers` is, whether `mcp_servers.tesapi` exists and is a table,
/// and the entry's `tesapi_managed`, `command` and `args` values.
#[derive(Debug)]
pub struct CodexEntry {
    pub servers: ServersKind,
    pub present: bool,
    pub server_table: bool,
    pub managed: Option<bool>,
    pub command: Option<String>,
    pub args: Option<Vec<Option<String>>>,
}

/// The mathematical value of a `CodexEntry`.
pub struct CodexEntryV {
    pub servers: ServersKind,
    pub present: bool,
    pub server_table: bool,
    pub managed: Option<bool>,
    pub command: Option<Seq<char>>,
    pub args: Option<Seq<Option<Seq<char>>>>,
}

pub open spec fn opt_texts(v: Seq<Option<String>>) -> Seq<Option<Seq<char>>> {
    v.map_values(|o: Option<String>| crate::text::opt_view(o))
}

impl View for CodexEntry {
    type V = CodexEntryV;

    open spec fn view(&self) -> CodexEntryV {
        CodexEntryV {
            servers: self.servers,
            present: self.present,
            server_table: self.server_table,
            managed: self.managed,
            command: crate::text::opt_view(self.command),
            args: match self.args {
                Some(a) => Some(opt_texts(a@)),
                None => None,
            },
        }
    }
}

/// What `toml_edit` reads of a configuration text: what the key `outer`
/// holds, whether `outer.inner` exists and is a table, and that table's
/// boolean `flag_key`, text `text_key` and list of texts `list_key`; or the
/// parser's error text.
pub uninterp spec fn toml_read(
    text: Seq<char>,
    outer: Seq<char>,
    inner: Seq<char>,
    flag_key: Seq<char>,
    text_key: Seq<char>,
    list_key: Seq<char>,
) -> Result<CodexEntryV, Seq<char>>;

/// What a Codex configuration says of the TesAPI server: the keys
/// `mcp_servers`, `mcp_servers.tesapi`, and its `tesapi_managed`, `command`
/// and `args`.
pub open spec fn codex_read(text: Seq<char>) -> Result<CodexEntryV, Seq<char>> {
    toml_read(text, "mcp_servers"@, "tesapi"@, "tesapi_managed"@, "command"@, "args"@)
}

/// A value that the library writes into a TOML table.
pub enum TomlValue {
    Text(String),
    Flag(bool),
    Texts(Vec<String>),
}

/// The mathematical value of a `TomlValue`.
pub enum TomlValueV {
    Text(Seq<char>),
    Flag(bool),
    Texts(Seq<Seq<char>>),
}

impl View for TomlValue {
    type V = TomlValueV;

    open spec fn view(&self) -> TomlValueV {
        match self {
            TomlValue::Text(s) => TomlValueV::Text(s@),
            TomlValue::Flag(b) => TomlValueV::Flag(*b),
            TomlValue::Texts(a) => TomlValueV::Texts(strings_of(a@)),
        }
    }
}

pub open spec fn toml_entries_view(es: Seq<(String, TomlValue)>) -> Seq<(Seq<char>, TomlValueV)> {
    es.map_values(|e: (String, TomlValue)| (e.0@, e.1@))
}

/// The configuration text with `outer.inner` set to a table of the given
/// entries, in order, everything else kept as written; when `create_outer`
/// is set, `outer` is first made an empty table.
pub uninterp spec fn toml_with_entries(
    text: Seq<char>,
    outer: Seq<char>,
    inner: Seq<char>,
    entries: Seq<(Seq<char>, TomlValueV)>,
    create_outer: bool,
) -> Seq<char>;

/// The configuration text with `inner` removed from the table `outer`
/// (unchanged when `outer` is not a table).
pub uninterp spec fn toml_without_entry(text: Seq<char>, outer: Seq<char>, inner: Seq<char>) -> Seq<char>;

/// The text of a new document whose only content is `outer.inner`, a table
/// of the given entries.
pub uninterp spec fn toml_entries_snippet(outer: Seq<char>, inner: Seq<char>, entries: Seq<(Seq<char>, TomlValueV)>) -> Seq<char>;

#[verifier::external_type_specification]
#[verifier::external_body]
pub struct ExTomlTable(Table);

/// `toml_edit::Table` of the entries, each value converted to its TOML
/// value (no contract: the writing wrappers below state the composite).
#[verifier::external_body]
fn toml_table(entries: &[(String, TomlValue)]) -> Table {
    let mut table = Table::new();
    for (key, item) in entries {
        table[key.as_str()] = match item {
            TomlValue::Text(text) => value(text.as_str()),
            TomlValue::Flag(flag) => value(*flag),
            TomlValue::Texts(texts) => value(texts.iter().map(String::as_str).collect::<Array>()),
        };
    }
    table
}

#[verifier::external_type_specification]
#[verifier::external_body]
pub struct ExTomlItem(Item);

/// What kind of `toml_edit::Item` a key holds, variant by variant (no
/// contract: the reading wrapper below states the composite).
#[verifier::external_body]
fn kind_of(item: Option<&Item>) -> ServersKind {
    match item {
        None => ServersKind::Absent,
        Some(Item::Table(_)) => ServersKind::Table,
        Some(item) if item.is_inline_table() => ServersKind::InlineTable,
        Some(_) => ServersKind::Other,
    }
}

/// `toml_edit`: parses a text and reads the key `outer`, the table
/// `outer.inner`, and that table's `flag_key`, `text_key` and `list_key`.
#[verifier::external_body]
fn read_entry(text: &str, outer: &str, inner: &str, flag_key: &str, text_key: &str, list_key: &str) -> (r: Result<CodexEntry, String>)
    ensures
        match r {
            Ok(e) => toml_read(text@, outer@, inner@, flag_key@, text_key@, list_key@) == Ok::<CodexEntryV, Seq<char>>(e@),
            Err(m) => toml_read(text@, outer@, inner@, flag_key@, text_key@, list_key@) == Err::<CodexEntryV, Seq<char>>(m@),
        },
{
    let document = text.parse::<DocumentMut>().map_err(|error| error.to_string())?;
    let servers = document.get(outer);
    let item = servers.and_then(|servers| servers.get(inner));
    let table = item.and_then(Item::as_table);
    let field = |key| table.and_then(|t| t.get(key));
    Ok(CodexEntry {
        servers: kind_of(servers),
        present: item.is_some(),
        server_table: table.is_some(),
        managed: field(flag_key).and_then(Item::as_bool),
        command: field(text_key).and_then(Item::as_str).map(str::to_owned),
        args: field(list_key).and_then(Item::as_array).map(|a| a.iter().map(|v| v.as_str().map(str::to_owned)).collect()),
    })
}

/// `toml_edit`: sets `outer.inner` to a table of the entries in a text that
/// parses, first making `outer` an empty table when `create_outer` is set.
/// Indexing a key that holds neither a table nor an inline table panics
/// there, so `outer` must be one of those or absent, or be created.
#[verifier::external_body]
fn with_entries(text: &str, outer: &str, inner: &str, entries: &[(String, TomlValue)], create_outer: bool) -> (r: String)
    requires
        exists|i: Seq<char>, f: Seq<char>, c: Seq<char>, l: Seq<char>|
            #[trigger] toml_read(text@, outer@, i, f, c, l) matches Ok(e) && (create_outer || e.servers != ServersKind::Other),
    ensures
        r@ == toml_with_entries(text@, outer@, inner@, toml_entries_view(entries@), create_outer),
{
    let mut document = text.parse::<DocumentMut>().expect("the text was parsed before");
    if create_outer {
        document[outer] = Item::Table(Table::new());
    }
    document[outer][inner] = Item::Table(toml_table(entries));
    document.to_string()
}

/// `toml_edit`: removes `inner` from the table `outer` of a text that parses.
#[verifier::external_body]
fn without_entry(text: &str, outer: &str, inner: &str) -> (r: String)
    requires
        exists|o: Seq<char>, i: Seq<char>, f: Seq<char>, c: Seq<char>, l: Seq<char>| #[trigger] toml_read(text@, o, i, f, c, l) is Ok,
    ensures
        r@ == toml_without_entry(text@, outer@, inner@),
{
    let mut document = text.parse::<DocumentMut>().expect("the text was parsed before");
    if let Some(table) = document.get_mut(outer).and_then(Item::as_table_mut) {
        table.remove(inner);
    }
    document.to_string()
}

/// `toml_edit`: the text of a new document holding `outer.inner`, a table
/// of the entries.
#[verifier::external_body]
fn entries_snippet(outer: &str, inner: &str, entries: &[(String, TomlValue)]) -> (r: String)
    ensures
        r@ == toml_entries_snippet(outer@, inner@, toml_entries_view(entries@)),
{
    let mut document = DocumentMut::new();
    document[outer][inner] = Item::Table(toml_table(entries));
    document.to_string()
}

/// A Codex configuration read from its text, refused when it is not TOML.
pub fn read(text: &str) -> (r: Result<CodexEntry, String>)
    ensures
        match r {
            Ok(e) => codex_read(text@) == Ok::<CodexEntryV, Seq<char>>(e@),
            Err(m) => codex_read(text@) matches Err(p) && m@ == "Codex configuration is invalid TOML: "@ + p,
        },
{
    match read_entry(text, "mcp_servers", "tesapi", "tesapi_managed", "command", "args") {
        Ok(e) => Ok(e),
        Err(p) => {
            let mut m = to_chars("Codex configuration is invalid TOML: ");
            push_str_chars(&mut m, p.as_str());
            Err(from_chars(m.as_slice()))
        },
    }
}

/// Whether the Codex configuration has a TesAPI server.
pub fn entry_exists(entry: &CodexEntry) -> (r: bool)
    ensures
        r == entry@.present,
{
    entry.present
}

/// Some argument is the text `t`.
pub open spec fn args_contain(args: Seq<Option<Seq<char>>>, t: Seq<char>) -> bool {
    exists|i: int| 0 <= i < args.len() && #[trigger] args[i] == Some(t)
}

/// The TesAPI server is a table managed by TesAPI that runs `command` and
/// passes the endpoint and client id among its arguments.
pub open spec fn entry_current_spec(e: CodexEntryV, command: Seq<char>, endpoint: Seq<char>, client_id: Seq<char>) -> bool {
    &&& e.server_table
    &&& e.managed == Some(true)
    &&& e.command == Some(command)
    &&& (e.args matches Some(a) && args_contain(a, endpoint) && args_contain(a, client_id))
}

fn args_contain_exec(args: &Vec<Option<String>>, t: &str) -> (r: bool)
    ensures
        r == args_contain(opt_texts(args@), t@),
{
    let mut i: usize = 0;
    while i < args.len()
        invariant
            i <= args.len(),
            forall|m: int| 0 <= m < i ==> #[trigger] opt_texts(args@)[m] != Some(t@),
        decreases args.len() - i,
    {
        match &args[i] {
            Some(s) => {
                if str_eq(s.as_str(), t) {
                    assert(opt_texts(args@)[i as int] == Some(t@));
                    return true;
                }
            },
            None => {},
        }
        assert(opt_texts(args@)[i as int] == crate::text::opt_view(args@[i as int]));
        i += 1;
    }
    false
}

/// Whether the TesAPI server of the Codex configuration matches this installation.
pub fn entry_current(entry: &CodexEntry, command: &str, endpoint: &str, client_id: &str) -> (r: bool)
    ensures
        r == entry_current_spec(entry@, command@, endpoint@, client_id@),
{
    let same_command = match &entry.command {
        Some(c) => str_eq(c.as_str(), command),
        None => false,
    };
    let args_ok = match &entry.args {
        Some(a) => args_contain_exec(a, endpoint) && args_contain_exec(a, client_id),
        None => false,
    };
    entry.server_table && entry.managed == Some(true) && same_command && args_ok
}

/// The entries of the TesAPI server table: the command, its arguments, and
/// the mark that TesAPI manages the entry.
pub open spec fn server_entries_spec(command: Seq<char>, args: Seq<Seq<char>>) -> Seq<(Seq<char>, TomlValueV)> {
    seq![
        ("command"@, TomlValueV::Text(command)),
        ("args"@, TomlValueV::Texts(args)),
        ("tesapi_managed"@, TomlValueV::Flag(true)),
    ]
}

/// The entries of the TesAPI server table that a client is configured with.
pub fn server_entries(command: &str, args: &[String]) -> (r: Vec<(String, TomlValue)>)
    ensures
        toml_entries_view(r@) == server_entries_spec(command@, strings_of(args@)),
{
    let r = vec![
        (owned("command"), TomlValue::Text(owned(command))),
        (owned("args"), TomlValue::Texts(copy_strings(args))),
        (owned("tesapi_managed"), TomlValue::Flag(true)),
    ];
    assert(toml_entries_view(r@) =~= server_entries_spec(command@, strings_of(args@)));
    r
}

/// The entries of the snippet that configures the TesAPI server by hand:
/// the command and its arguments.
pub open spec fn snippet_entries_spec(command: Seq<char>, args: Seq<Seq<char>>) -> Seq<(Seq<char>, TomlValueV)> {
    seq![("command"@, TomlValueV::Text(command)), ("args"@, TomlValueV::Texts(args))]
}

/// The entries of the hand-written TesAPI server table.
pub fn snippet_entries(command: &str, args: &[String]) -> (r: Vec<(String, TomlValue)>)
    ensures
        toml_entries_view(r@) == snippet_entries_spec(command@, strings_of(args@)),
{
    let r = vec![(owned("command"), TomlValue::Text(owned(command))), (owned("args"), TomlValue::Texts(copy_strings(args)))];
    assert(toml_entries_view(r@) =~= snippet_entries_spec(command@, strings_of(args@)));
    r
}

fn copy_strings(args: &[String]) -> (r: Vec<String>)
    ensures
        strings_of(r@) == strings_of(args@),
{
    let mut r: Vec<String> = Vec::new();
    let mut i: usize = 0;
    while i < args.len()
        invariant
            i <= args.len(),
            r.len() == i,
            strings_of(r@) == strings_of(args@.take(i as int)),
        decreases args.len() - i,
    {
        let ghost before = r@;
        let x = owned(args[i].as_str());
        r.push(x);
        proof {
            assert(r@ == before.push(x));
            assert forall|k: int| 0 <= k < i + 1 implies strings_of(r@)[k] == strings_of(args@.take(i + 1))[k] by {
                if k < i {
                    assert(strings_of(before)[k] == strings_of(args@.take(i as int))[k]);
                } else {
                    assert(x@ == args@[i as int]@);
                }
            }
            assert(strings_of(r@) =~= strings_of(args@.take(i + 1)));
        }
        i += 1;
    }
    assert(args@.take(args.len() as int) == args@);
    r
}

/// Setting the TesAPI server can write `mcp_servers`: it is absent, a table
/// or an inline table (indexing any other value panics).
pub open spec fn servers_writable(e: CodexEntryV) -> bool {
    e.servers != ServersKind::Other
}

/// The configuration after setting the TesAPI server: `mcp_servers` is made
/// a table when it is absent, then `mcp_servers.tesapi` is set to the
/// managed server table.
pub open spec fn patched_text(text: Seq<char>, e: CodexEntryV, command: Seq<char>, args: Seq<Seq<char>>) -> Seq<char> {
    toml_with_entries(text, "mcp_servers"@, "tesapi"@, server_entries_spec(command, args), e.servers == ServersKind::Absent)
}

/// The configuration text with the TesAPI server set.
pub fn patch(text: &str, command: &str, args: &[String]) -> (r: Result<String, String>)
    requires
        codex_read(text@) matches Ok(e) ==> servers_writable(e),
    ensures
        match r {
            Ok(t) => codex_read(text@) matches Ok(e) && t@ == patched_text(text@, e, command@, strings_of(args@)),
            Err(m) => codex_read(text@) matches Err(p) && m@ == "Codex configuration is invalid TOML: "@ + p,
        },
{
    let entry = read(text)?;
    let create = entry.servers == ServersKind::Absent;
    let entries = server_entries(command, args);
    proof {
        reveal_strlit("mcp_servers");
    }
    Ok(with_entries(text, "mcp_servers", "tesapi", entries.as_slice(), create))
}

/// Sets the TesAPI server where `mcp_servers` can be written: `None` when
/// the text parses but its `mcp_servers` is neither a table nor an inline
/// table (setting the server there cannot be done).
pub fn patch_config(text: &str, command: &str, args: &[String]) -> (r: Option<Result<String, String>>)
    ensures
        match r {
            None => codex_read(text@) matches Ok(e) && !servers_writable(e),
            Some(Ok(t)) => codex_read(text@) matches Ok(e) && servers_writable(e) && t@ == patched_text(text@, e, command@, strings_of(args@)),
            Some(Err(m)) => codex_read(text@) matches Err(p) && m@ == "Codex configuration is invalid TOML: "@ + p,
        },
{
    match read(text) {
        Ok(entry) => {
            if entry.servers == ServersKind::Other {
                return None;
            }
        },
        Err(m) => return Some(Err(m)),
    }
    Some(patch(text, command, args))
}

/// What `remove` decides: a server table whose TesAPI entry is not a table
/// managed by TesAPI is refused; otherwise the entry goes.
pub open spec fn remove_refused(e: CodexEntryV) -> bool {
    e.servers == ServersKind::Table && !(e.server_table && e.managed == Some(true))
}

/// The configuration text without the TesAPI server, when TesAPI manages it.
pub fn remove(text: &str) -> (r: Result<String, String>)
    ensures
        match r {
            Ok(t) => codex_read(text@) matches Ok(e) && !remove_refused(e) && t@ == toml_without_entry(text@, "mcp_servers"@, "tesapi"@),
            Err(m) => match codex_read(text@) {
                Ok(e) => remove_refused(e) && m@ == "The TesAPI entry is managed manually and was not removed"@,
                Err(p) => m@ == "Codex configuration is invalid TOML: "@ + p,
            },
        },
{
    let entry = read(text)?;
    if entry.servers == ServersKind::Table && !(entry.server_table && entry.managed == Some(true)) {
        return Err(owned("The TesAPI entry is managed manually and was not removed"));
    }
    Ok(without_entry(text, "mcp_servers", "tesapi"))
}

/// The TOML snippet that configures a client by hand: a document holding
/// only `mcp_servers.tesapi` with the command and its arguments.
pub fn snippet(command: &str, args: &[String]) -> (r: String)
    ensures
        r@ == toml_entries_snippet("mcp_servers"@, "tesapi"@, snippet_entries_spec(command@, strings_of(args@))),
{
    let entries = snippet_entries(command, args);
    entries_snippet("mcp_servers", "tesapi", entries.as_slice())
}

} // verus!
