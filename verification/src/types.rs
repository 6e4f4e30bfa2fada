use vstd::prelude::*;

use crate::json::Json;

verus! {

/// What an MCP client may do: nothing, read, draft, or execute requests.
/// The levels are totally ordered: `Deny < Read < Draft < Execute`.
#[derive(Clone, Copy, Debug, PartialEq, Eq, Structural)]
pub enum Capability {
    Deny,
    Read,
    Draft,
    Execute,
}

/// The position of a capability in the order `Deny < Read < Draft < Execute`.
pub open spec fn rank_of(c: Capability) -> nat {
    match c {
        Capability::Deny => 0,
        Capability::Read => 1,
        Capability::Draft => 2,
        Capability::Execute => 3,
    }
}

/// The name under which a capability is stored and exchanged.
pub open spec fn capability_name(c: Capability) -> Seq<char> {
    match c {
        Capability::Deny => "deny"@,
        Capability::Read => "read"@,
        Capability::Draft => "draft"@,
        Capability::Execute => "execute"@,
    }
}

/// The capability a stored name denotes: every name but the three known
/// grants means `Deny`.
pub open spec fn capability_of_name(name: Seq<char>) -> Capability {
    if name == "read"@ {
        Capability::Read
    } else if name == "draft"@ {
        Capability::Draft
    } else if name == "execute"@ {
        Capability::Execute
    } else {
        Capability::Deny
    }
}

/// The lower of two capabilities.
pub open spec fn min_capability(a: Capability, b: Capability) -> Capability {
    if rank_of(a) <= rank_of(b) { a } else { b }
}

impl Capability {
    pub fn as_str(self) -> (s: &'static str)
        ensures
            s@ == capability_name(self),
    {
        proof {
            reveal_strlit("deny");
            reveal_strlit("read");
            reveal_strlit("draft");
            reveal_strlit("execute");
        }
        match self {
            Capability::Deny => "deny",
            Capability::Read => "read",
            Capability::Draft => "draft",
            Capability::Execute => "execute",
        }
    }

    pub fn parse(value: &str) -> (c: Capability)
        ensures
            c == capability_of_name(value@),
    {
        if crate::text::str_eq(value, "read") {
            Capability::Read
        } else if crate::text::str_eq(value, "draft") {
            Capability::Draft
        } else if crate::text::str_eq(value, "execute") {
            Capability::Execute
        } else {
            Capability::Deny
        }
    }

    pub fn allows(self, required: Capability) -> (b: bool)
        ensures
            b == (rank_of(self) >= rank_of(required)),
    {
        self.rank() >= required.rank()
    }

    pub fn minimum(self, other: Capability) -> (c: Capability)
        ensures
            c == min_capability(self, other),
    {
        if self.rank() <= other.rank() {
            self
        } else {
            other
        }
    }

    pub fn rank(self) -> (r: u8)
        ensures
            r as nat == rank_of(self),
    {
        match self {
            Capability::Deny => 0,
            Capability::Read => 1,
            Capability::Draft => 2,
            Capability::Execute => 3,
        }
    }
}

/// Parsing the stored name of a capability gives the capability back.
pub proof fn lemma_capability_name_roundtrip(c: Capability)
    ensures
        capability_of_name(capability_name(c)) == c,
{
    reveal_strlit("deny");
    reveal_strlit("read");
    reveal_strlit("draft");
    reveal_strlit("execute");
    assert("deny"@[0] != "read"@[0]);
    assert("deny"@[1] != "draft"@[1]);
    assert("deny"@[0] != "execute"@[0]);
    assert("draft"@[0] != "read"@[0]);
    assert("execute"@[0] != "read"@[0]);
    assert("execute"@[0] != "draft"@[0]);
}

/// `minimum` is the greatest lower bound of the capability order: it is
/// allowed by neither more than its arguments, and is commutative,
/// associative and idempotent.
pub proof fn lemma_minimum_is_meet(a: Capability, b: Capability, c: Capability)
    ensures
        rank_of(min_capability(a, b)) <= rank_of(a),
        rank_of(min_capability(a, b)) <= rank_of(b),
        min_capability(a, b) == a || min_capability(a, b) == b,
        (rank_of(c) <= rank_of(a) && rank_of(c) <= rank_of(b)) ==> rank_of(c) <= rank_of(
            min_capability(a, b),
        ),
        min_capability(a, b) == min_capability(b, a),
        min_capability(a, min_capability(b, c)) == min_capability(min_capability(a, b), c),
        min_capability(a, a) == a,
{
}

/// Granting is monotone: a capability allows every requirement that a lower one allows,
/// and the order is a total order on the four levels.
pub proof fn lemma_allows_order(a: Capability, b: Capability, r: Capability)
    ensures
        rank_of(a) >= rank_of(a),
        (rank_of(b) >= rank_of(r) && rank_of(a) >= rank_of(b)) ==> rank_of(a) >= rank_of(r),
        rank_of(a) >= rank_of(b) || rank_of(b) >= rank_of(a),
        (rank_of(a) == rank_of(b)) ==> a == b,
        rank_of(Capability::Execute) >= rank_of(a),
        rank_of(a) >= rank_of(Capability::Deny),
{
}

} // verus!

verus! {

/// A configured MCP client and the capability it was granted.
#[derive(Debug)]
pub struct McpClient {
    pub id: String,
    pub kind: String,
    pub display_name: String,
    pub config_path: Option<String>,
    pub enabled: bool,
    pub capability: Capability,
    pub installed_at: Option<i64>,
    pub last_seen_at: Option<i64>,
}

/// A policy row: a capability granted to a client (or every client, when
/// `client_id` is unset) in a workspace, collection or environment scope.
#[derive(Debug)]
pub struct McpPolicy {
    pub id: String,
    pub client_id: Option<String>,
    pub workspace_id: Option<String>,
    pub collection_id: Option<String>,
    pub environment_id: Option<String>,
    pub capability: Capability,
    pub environment_class: Option<String>,
    pub environment_use: Option<bool>,
    pub approval_mode: Option<String>,
    pub created_at: i64,
    pub updated_at: i64,
}

/// An authenticated session of a client.
#[derive(Debug)]
pub struct AuthenticatedSession {
    pub id: String,
    pub client: McpClient,
}

} // verus!

verus! {

impl Clone for McpPolicy {
    fn clone(&self) -> (r: Self)
        ensures
            r == *self,
    {
        McpPolicy {
            id: self.id.clone(),
            client_id: crate::text::clone_opt_string(&self.client_id),
            workspace_id: crate::text::clone_opt_string(&self.workspace_id),
            collection_id: crate::text::clone_opt_string(&self.collection_id),
            environment_id: crate::text::clone_opt_string(&self.environment_id),
            capability: self.capability,
            environment_class: crate::text::clone_opt_string(&self.environment_class),
            environment_use: self.environment_use,
            approval_mode: crate::text::clone_opt_string(&self.approval_mode),
            created_at: self.created_at,
            updated_at: self.updated_at,
        }
    }
}

impl Clone for McpClient {
    fn clone(&self) -> (r: Self)
        ensures
            r == *self,
    {
        McpClient {
            id: self.id.clone(),
            kind: self.kind.clone(),
            display_name: self.display_name.clone(),
            config_path: crate::text::clone_opt_string(&self.config_path),
            enabled: self.enabled,
            capability: self.capability,
            installed_at: self.installed_at,
            last_seen_at: self.last_seen_at,
        }
    }
}

} // verus!

verus! {

/// What the settings page shows of one supported client.
#[derive(Debug)]
pub struct ClientOverview {
    pub kind: String,
    pub display_name: String,
    pub detected: bool,
    pub installation_status: String,
    pub configuration_status: String,
    pub config_path: Option<String>,
    pub client: Option<McpClient>,
}

/// The redaction and retention settings of the MCP integration.
#[derive(Debug)]
pub struct McpSafetySettings {
    pub store_body_previews: bool,
    pub sensitive_key_patterns: Vec<String>,
    pub trusted_destinations: Vec<String>,
    pub activity_retention_days: i64,
    pub activity_max_rows: i64,
}

/// The state of the MCP integration as a whole.
#[derive(Debug)]
pub struct McpOverview {
    pub enabled: bool,
    pub read_only: bool,
    pub broker_available: bool,
    pub endpoint: String,
    pub clients: Vec<ClientOverview>,
    pub active_sessions: usize,
    pub safety: McpSafetySettings,
}

/// A policy as the user submits it; the id is assigned when absent.
#[derive(Debug)]
pub struct PolicyInput {
    pub id: Option<String>,
    pub client_id: Option<String>,
    pub workspace_id: Option<String>,
    pub collection_id: Option<String>,
    pub environment_id: Option<String>,
    pub capability: Capability,
    pub environment_class: Option<String>,
    pub environment_use: Option<bool>,
    pub approval_mode: Option<String>,
}

/// Filters and paging of the activity log.
#[derive(Debug)]
pub struct ActivityQuery {
    pub search: Option<String>,
    pub client_id: Option<String>,
    pub tool_name: Option<String>,
    pub workspace_id: Option<String>,
    pub status: Option<String>,
    pub approval_decision: Option<String>,
    pub session_id: Option<String>,
    pub started_after: Option<i64>,
    pub started_before: Option<i64>,
    pub offset: Option<usize>,
    pub limit: Option<usize>,
}

impl Default for ActivityQuery {
    fn default() -> (r: Self)
        ensures
            r.search is None && r.client_id is None && r.tool_name is None && r.workspace_id is None
                && r.status is None && r.approval_decision is None && r.session_id is None
                && r.started_after is None && r.started_before is None && r.offset is None
                && r.limit is None,
    {
        ActivityQuery {
            search: None,
            client_id: None,
            tool_name: None,
            workspace_id: None,
            status: None,
            approval_decision: None,
            session_id: None,
            started_after: None,
            started_before: None,
            offset: None,
            limit: None,
        }
    }
}

/// What installing a client's configuration would write.
#[derive(Debug)]
pub struct ConfigPreview {
    pub kind: String,
    pub display_name: String,
    pub target_path: String,
    pub operation: String,
    pub command: String,
    pub args: Vec<String>,
    pub snippet: String,
    pub preserves_existing: bool,
    pub backup_required: bool,
}

/// A collection of a workspace, with its size.
#[derive(Debug)]
pub struct WorkspaceCollectionOption {
    pub id: String,
    pub name: String,
    pub request_count: usize,
    pub folder_count: usize,
}

/// An environment of a workspace, with its number of variables and secrets.
#[derive(Debug)]
pub struct WorkspaceEnvironmentOption {
    pub id: String,
    pub name: String,
    pub variable_count: usize,
    pub secret_count: usize,
}

} // verus!

verus! {

/// One recorded tool call.
#[derive(Debug)]
pub struct McpActivity {
    pub id: String,
    pub session_id: String,
    pub client_id: String,
    pub client_name: String,
    pub tool_name: String,
    pub workspace_id: Option<String>,
    pub collection_id: Option<String>,
    pub request_id: Option<String>,
    pub draft_id: Option<String>,
    pub status: String,
    pub policy_reasons: Vec<String>,
    pub input_summary: Json,
    pub output_summary: Json,
    pub error_code: Option<String>,
    pub error_detail: Option<String>,
    pub approval_id: Option<String>,
    pub approval_decision: Option<String>,
    pub approval_requested_at: Option<i64>,
    pub approval_decided_at: Option<i64>,
    pub started_at: i64,
    pub completed_at: Option<i64>,
    pub duration_ms: Option<i64>,
}

/// A request for the user's approval of a risky action.
#[derive(Debug)]
pub struct McpApproval {
    pub id: String,
    pub activity_id: String,
    pub workspace_id: Option<String>,
    pub client_name: String,
    pub tool_name: String,
    pub request_fingerprint: String,
    pub risk_reasons: Vec<String>,
    pub summary: Json,
    pub decision: String,
    pub requested_at: i64,
    pub decided_at: Option<i64>,
    pub expires_at: i64,
}

/// A request that a client is preparing before saving it to a collection.
#[derive(Debug)]
pub struct McpDraft {
    pub id: String,
    pub workspace_id: String,
    pub origin_collection_id: Option<String>,
    pub origin_request_id: Option<String>,
    pub created_by_client_id: String,
    pub created_by_session_id: String,
    pub revision: i64,
    pub request: Json,
    pub created_at: i64,
    pub updated_at: i64,
    pub expires_at: i64,
}

/// A message from the companion process to the broker.
#[derive(Debug)]
pub struct BrokerRequest {
    pub request_id: String,
    pub client_id: String,
    pub token: String,
    pub session_id: Option<String>,
    pub action: String,
    pub tool_name: Option<String>,
    pub arguments: Json,
    pub protocol_version: Option<String>,
}

/// The broker's answer to one request.
#[derive(Debug)]
pub struct BrokerResponse {
    pub request_id: String,
    pub ok: bool,
    pub result: Option<Json>,
    pub error_code: Option<String>,
    pub error_message: Option<String>,
    pub session_id: Option<String>,
}

} // verus!
