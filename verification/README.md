# tesapi

The MCP integration of the TesAPI desktop API client: the rules that decide
what an AI client may read, draft, save and execute in a workspace, how its
requests are redacted, approved and fingerprinted, and how the companion and
the broker talk to each other. The rules are written in Verus and proved
against their contracts.

## Layout

- `src/` is the verified library.
  - `json`, `text`, `order`: the JSON document model and the text and
    ordering functions that the rest is stated over.
  - `types`, `policy`, `settings`: capabilities, workspace and collection
    policies, approval modes and the safety settings.
  - `security`, `redaction`, `url`, `http_path`: hashing and fingerprints,
    private addresses, secret scrubbing and request redaction, URL facts and
    path templates.
  - `workspace`: collection trees, saved requests, search, documentation and
    environments.
  - `tools`: the MCP tools (read, drafts, structure, save, execute) as
    decisions and documents; `tools::flow` holds the steps of an execution
    and of an approved write, which `app/` drives by doing each action and
    handing back its result.
  - `broker`, `companion`: message intake, rate limiting, sessions, tool
    definitions and replies.
  - `store`, `commands`, `config`, `cloud`, `windows`: registry rows,
    approvals and activity, client configuration files, cloud enrollment and
    mutations, and the workspace windows.
- `app/` is ordinary Rust around the library: the SQLite registry, the
  workspace files, the local socket broker, the MCP companion, client
  configuration files and the network.
- `tests/` exercises the library on concrete values.

Public proof functions named `law_*` state the properties that hold across
calls, such as that scrubbing hides every known secret, that a refused
request gives its reasons back, or that a client never gets more than its
workspace allows.
