use vstd::prelude::*;

use crate::json::{Json, JsonV};
use crate::policy::{
    destination_is_trusted, destination_is_trusted_spec, execution_risks, execution_risks_spec, requires_approval,
    requires_approval_spec, strings_view, PolicyDecision,
};
use crate::security::{fingerprint, fingerprint_spec};
use crate::text::{opt_ref_view, opt_view, owned, strings_of};
use crate::tools::execute::{
    allows_session, binding, binding_spec, check_fingerprint, check_resolved, check_risks, check_scheme,
    check_still_resolved, execute_summary, method_spec, request_method, request_url,
};
use crate::tools::save::check_unchanged;
use crate::tools::{access_denied, internal, is_tool_error, ToolError};
use crate::url::{url_parse, UrlInfo, UrlInfoV};

verus! {

/// The outside result that an execution waits for next.
#[derive(Clone, Copy, Debug, PartialEq, Eq, Structural)]
pub enum ExecuteStage {
    /// The policy decision for the source request.
    Decision,
    /// The request resolved in the environment.
    Resolution,
    /// Whether the destination is a private address.
    Destination,
    /// The user's answer to the approval request.
    Approval,
    /// The request reloaded and resolved again after approval.
    Reload,
    /// The policy decision for the reloaded request.
    Redecision,
    /// Whether the reloaded destination is a private address.
    FreshDestination,
    /// Nothing: the request was sent.
    Done,
    /// Nothing: the call was refused or failed.
    Failed,
}

/// The order of the stages.
pub open spec fn stage_rank(s: ExecuteStage) -> int {
    match s {
        ExecuteStage::Decision => 0,
        ExecuteStage::Resolution => 1,
        ExecuteStage::Destination => 2,
        ExecuteStage::Approval => 3,
        ExecuteStage::Reload => 4,
        ExecuteStage::Redecision => 5,
        ExecuteStage::FreshDestination => 6,
        ExecuteStage::Done => 7,
        ExecuteStage::Failed => 0,
    }
}

/// What the caller hands back after doing an action.
pub enum ExecuteEvent {
    /// The policy decision for the source request.
    Decided(PolicyDecision),
    /// The source request resolved in the environment, with the names of the
    /// variables that did not resolve.
    Resolved { resolved: Json, unresolved: Vec<String> },
    /// Whether the destination's host is a private address.
    Destination { private: bool },
    /// The end of the wait for approval: granted, or the error that ended it.
    Approval(Result<(), ToolError>),
    /// The request loaded again and resolved again.
    Reloaded { source: Json, resolved: Json, unresolved: Vec<String> },
    /// The policy decision for the reloaded request.
    Redecided(PolicyDecision),
    /// Whether the reloaded destination's host is a private address.
    FreshDestination { private: bool },
}

/// What the caller does next.
pub enum ExecuteAction {
    /// Evaluate the policy for the source request.
    Decide,
    /// Resolve the source request in the environment.
    Resolve,
    /// Find out whether the host of this URL is a private address.
    CheckDestination(UrlInfo),
    /// Ask the user to approve the call described by the summary.
    Approve { fingerprint: String, risks: Vec<String>, summary: Json, allow_session: bool },
    /// Load the request again and resolve it again.
    Reload,
    /// Evaluate the policy for the reloaded request.
    Redecide,
    /// Find out whether the host of this reloaded URL is a private address.
    CheckFreshDestination(UrlInfo),
    /// Send the resolved request with this method to this URL (the
    /// request's own `url` text).
    Send { resolved: Json, method: String, url: String },
    /// End the call with this error; nothing is sent.
    Fail(ToolError),
}

/// An execution in progress: its inputs and what each stage established.
pub struct ExecuteState {
    pub stage: ExecuteStage,
    pub tool_name: String,
    pub environment_id: String,
    pub workspace_id: String,
    pub collection_id: Option<String>,
    pub request_id: Option<String>,
    pub source: Json,
    pub trusted_destinations: Vec<String>,
    pub sensitive_patterns: Vec<String>,
    pub allowed: bool,
    pub approval_mode: String,
    pub environment_class: Option<String>,
    pub resolved: Json,
    pub unresolved: Vec<String>,
    pub url: Option<UrlInfo>,
    pub private: bool,
    pub method: String,
    pub risks: Vec<String>,
    pub fingerprint: String,
    pub approval_required: bool,
    pub approved: bool,
    pub fresh_source: Json,
    pub fresh_resolved: Json,
    pub fresh_unresolved: Vec<String>,
    pub fresh_fingerprint: String,
    pub fresh_allowed: bool,
    pub fresh_environment_class: Option<String>,
    pub fresh_url: Option<UrlInfo>,
    pub fresh_private: bool,
    pub fresh_risks: Vec<String>,
}

/// The scheme is HTTP or HTTPS.
pub open spec fn web_scheme(u: UrlInfoV) -> bool {
    u.scheme == "http"@ || u.scheme == "https"@
}

/// The risks of calling `url` with the resolved request.
pub open spec fn risks_of(
    s: ExecuteState,
    resolved: JsonV,
    class: Option<Seq<char>>,
    url: UrlInfoV,
    private: bool,
) -> Seq<Seq<char>> {
    execution_risks_spec(
        s.method@,
        url.scheme,
        class,
        resolved,
        private,
        destination_is_trusted_spec(url, strings_view(s.trusted_destinations@)),
    )
}

/// What each stage has established, cumulatively: the first decision
/// allowed the call; the request resolved completely to an HTTP(S) URL; its
/// risks, fingerprint and need for approval were computed from it; approval
/// was granted where needed; the reloaded request resolved completely to
/// the same fingerprint; the second decision allowed it; and its risks are
/// the approved ones.
pub open spec fn execute_inv(s: ExecuteState) -> bool {
    let r = stage_rank(s.stage);
    &&& r >= 1 ==> s.allowed
    &&& r >= 2 ==> {
        &&& s.unresolved.len() == 0
        &&& s.url matches Some(u) && web_scheme(u@)
        &&& s.method@ == method_spec(s.resolved@)
    }
    &&& r >= 3 ==> {
        &&& strings_view(s.risks@) == risks_of(s, s.resolved@, opt_view(s.environment_class), s.url->0@, s.private)
        &&& s.fingerprint@ == fingerprint_spec(binding_spec(s.source@, s.environment_id@, s.resolved@))
        &&& s.approval_required == requires_approval_spec(s.tool_name@, s.approval_mode@, s.risks.len() as nat)
    }
    &&& r >= 4 ==> (s.approval_required ==> s.approved)
    &&& r >= 5 ==> {
        &&& s.fresh_unresolved.len() == 0
        &&& s.fresh_fingerprint@ == fingerprint_spec(binding_spec(s.fresh_source@, s.environment_id@, s.fresh_resolved@))
        &&& s.fresh_fingerprint@ == s.fingerprint@
    }
    &&& r >= 6 ==> {
        &&& s.fresh_allowed
        &&& s.fresh_url is Some
        &&& crate::json::field_str(s.fresh_resolved@, "url"@) matches Some(t) && url_parse(t) == Some(s.fresh_url->0@)
    }
    &&& r >= 7 ==> strings_view(s.fresh_risks@) == risks_of(
        s,
        s.fresh_resolved@,
        opt_view(s.fresh_environment_class),
        s.fresh_url->0@,
        s.fresh_private,
    ) && strings_view(s.fresh_risks@) == strings_view(s.risks@)
}

/// Everything that must hold before a request is sent.
pub open spec fn sendable(s: ExecuteState) -> bool {
    &&& s.stage == ExecuteStage::Done
    &&& execute_inv(s)
    &&& s.allowed && s.fresh_allowed
    &&& s.unresolved.len() == 0 && s.fresh_unresolved.len() == 0
    &&& s.url matches Some(u) && web_scheme(u@)
    &&& (requires_approval_spec(s.tool_name@, s.approval_mode@, s.risks.len() as nat) ==> s.approved)
    &&& s.fresh_fingerprint@ == s.fingerprint@
    &&& strings_view(s.fresh_risks@) == strings_view(s.risks@)
}

fn copy_url(u: &UrlInfo) -> (r: UrlInfo)
    ensures
        r@ == u@,
{
    UrlInfo {
        scheme: owned(u.scheme.as_str()),
        host: match &u.host {
            Some(h) => Some(owned(h.as_str())),
            None => None,
        },
        fragment: match &u.fragment {
            Some(f) => Some(owned(f.as_str())),
            None => None,
        },
        origin: owned(u.origin.as_str()),
        href: owned(u.href.as_str()),
    }
}

fn copy_strings(v: &Vec<String>) -> (r: Vec<String>)
    ensures
        strings_view(r@) == strings_view(v@),
        r.len() == v.len(),
{
    let mut r: Vec<String> = Vec::new();
    let mut i: usize = 0;
    while i < v.len()
        invariant
            i <= v.len(),
            r.len() == i,
            forall|k: int| 0 <= k < i ==> (#[trigger] r@[k])@ == v@[k]@,
        decreases v.len() - i,
    {
        r.push(owned(v[i].as_str()));
        i += 1;
    }
    assert(strings_view(r@) =~= strings_view(v@));
    r
}

fn copy_opt(o: &Option<String>) -> (r: Option<String>)
    ensures
        opt_view(r) == opt_view(*o),
{
    match o {
        Some(s) => Some(owned(s.as_str())),
        None => None,
    }
}

/// An execution of `source` in an environment, waiting for its first
/// policy decision.
pub fn execute_start(
    tool_name: &str,
    environment_id: &str,
    workspace_id: &str,
    collection_id: Option<String>,
    request_id: Option<String>,
    source: Json,
    trusted_destinations: Vec<String>,
    sensitive_patterns: Vec<String>,
) -> (r: (ExecuteState, ExecuteAction))
    ensures
        r.0.stage == ExecuteStage::Decision,
        execute_inv(r.0),
        r.1 is Decide,
        r.0.tool_name@ == tool_name@,
        r.0.environment_id@ == environment_id@,
        r.0.workspace_id@ == workspace_id@,
        opt_view(r.0.collection_id) == opt_view(collection_id),
        opt_view(r.0.request_id) == opt_view(request_id),
        r.0.source@ == source@,
        r.0.trusted_destinations@ == trusted_destinations@,
        r.0.sensitive_patterns@ == sensitive_patterns@,
{
    let state = ExecuteState {
        stage: ExecuteStage::Decision,
        tool_name: owned(tool_name),
        environment_id: owned(environment_id),
        workspace_id: owned(workspace_id),
        collection_id,
        request_id,
        source,
        trusted_destinations,
        sensitive_patterns,
        allowed: false,
        approval_mode: String::new(),
        environment_class: None,
        resolved: Json::Null,
        unresolved: Vec::new(),
        url: None,
        private: false,
        method: String::new(),
        risks: Vec::new(),
        fingerprint: String::new(),
        approval_required: false,
        approved: false,
        fresh_source: Json::Null,
        fresh_resolved: Json::Null,
        fresh_unresolved: Vec::new(),
        fresh_fingerprint: String::new(),
        fresh_allowed: false,
        fresh_environment_class: None,
        fresh_url: None,
        fresh_private: false,
        fresh_risks: Vec::new(),
    };
    (state, ExecuteAction::Decide)
}

/// The failed end of an execution.
fn fail(mut state: ExecuteState, error: ToolError) -> (r: (ExecuteState, ExecuteAction))
    ensures
        r.0 == (ExecuteState { stage: ExecuteStage::Failed, ..state }),
        r.1 == ExecuteAction::Fail(error),
{
    state.stage = ExecuteStage::Failed;
    (state, ExecuteAction::Fail(error))
}

/// The unexpected-event error.
pub open spec fn out_of_order(e: ToolError) -> bool {
    e.code@ == "INTERNAL_ERROR"@ && e.message@ == "Execution event out of order"@
}

/// The call's inputs are unchanged.
pub open spec fn keeps_inputs(s: ExecuteState, t: ExecuteState) -> bool {
    &&& t.tool_name == s.tool_name
    &&& t.environment_id == s.environment_id
    &&& t.workspace_id == s.workspace_id
    &&& t.collection_id == s.collection_id
    &&& t.request_id == s.request_id
    &&& t.source == s.source
    &&& t.trusted_destinations == s.trusted_destinations
    &&& t.sensitive_patterns == s.sensitive_patterns
}

/// What the first decision recorded is unchanged.
pub open spec fn keeps_decision(s: ExecuteState, t: ExecuteState) -> bool {
    t.allowed == s.allowed && t.approval_mode == s.approval_mode && t.environment_class == s.environment_class
}

/// What the resolution recorded is unchanged.
pub open spec fn keeps_resolution(s: ExecuteState, t: ExecuteState) -> bool {
    t.resolved == s.resolved && t.unresolved == s.unresolved && t.url == s.url && t.method == s.method
}

/// What the destination check recorded is unchanged.
pub open spec fn keeps_destination(s: ExecuteState, t: ExecuteState) -> bool {
    t.private == s.private && t.risks == s.risks && t.fingerprint == s.fingerprint && t.approval_required == s.approval_required
}

/// What the approval and the reload recorded is unchanged.
pub open spec fn keeps_reload(s: ExecuteState, t: ExecuteState) -> bool {
    &&& t.approved == s.approved
    &&& t.fresh_source == s.fresh_source
    &&& t.fresh_resolved == s.fresh_resolved
    &&& t.fresh_unresolved == s.fresh_unresolved
    &&& t.fresh_fingerprint == s.fresh_fingerprint
}

/// What the second decision recorded is unchanged.
pub open spec fn keeps_redecision(s: ExecuteState, t: ExecuteState) -> bool {
    t.fresh_allowed == s.fresh_allowed && t.fresh_environment_class == s.fresh_environment_class && t.fresh_url == s.fresh_url
}

/// One step of an execution: what the caller's last result means and what
/// the caller does next. Nothing is sent unless the first decision allowed
/// the call, the request resolved completely to an HTTP(S) URL, approval
/// was granted where the rules need it, and the reloaded request has the
/// approved fingerprint, is allowed again and carries the approved risks.
pub fn execute_step(state: ExecuteState, event: ExecuteEvent) -> (r: (ExecuteState, ExecuteAction))
    ensures
        execute_inv(state) ==> execute_inv(r.0),
        execute_inv(state) && r.1 is Send ==> sendable(r.0) && (match r.1 {
            ExecuteAction::Send { resolved, method, url } => resolved@ == r.0.fresh_resolved@ && method@ == r.0.method@
                && crate::json::field_str(r.0.fresh_resolved@, "url"@) == Some(url@),
            _ => false,
        }),
        r.1 is Send ==> state.stage == ExecuteStage::FreshDestination && event is FreshDestination,
        r.1 is Fail ==> r.0.stage == ExecuteStage::Failed,
        // every stage keeps the inputs and what earlier stages recorded, and
        // records what its event reports
        keeps_inputs(state, r.0),
        event matches ExecuteEvent::Decided(d) ==> (state.stage == ExecuteStage::Decision && d.allowed ==> {
            &&& r.0.allowed
            &&& r.0.approval_mode == d.approval_mode
            &&& r.0.environment_class == d.environment_class
        }),
        event matches ExecuteEvent::Resolved { resolved, unresolved } ==> (state.stage == ExecuteStage::Resolution && !(r.1 is Fail) ==> {
            &&& keeps_decision(state, r.0)
            &&& r.0.resolved == resolved && r.0.unresolved == unresolved
            &&& r.0.method@ == method_spec(resolved@)
            &&& r.0.url matches Some(u) && crate::json::field_str(resolved@, "url"@) matches Some(text) && url_parse(text) == Some(u@)
        }),
        event matches ExecuteEvent::Destination { private } ==> (state.stage == ExecuteStage::Destination && !(r.1 is Fail) ==> {
            &&& keeps_decision(state, r.0) && keeps_resolution(state, r.0)
            &&& r.0.private == private
        }),
        event matches ExecuteEvent::Approval(a) ==> (state.stage == ExecuteStage::Approval && a is Ok ==> {
            &&& keeps_decision(state, r.0) && keeps_resolution(state, r.0) && keeps_destination(state, r.0)
            &&& r.0.approved
        }),
        event matches ExecuteEvent::Reloaded { source, resolved, unresolved } ==> (state.stage == ExecuteStage::Reload && !(r.1 is Fail) ==> {
            &&& keeps_decision(state, r.0) && keeps_resolution(state, r.0) && keeps_destination(state, r.0)
            &&& r.0.approved == state.approved
            &&& r.0.fresh_source == source && r.0.fresh_resolved == resolved && r.0.fresh_unresolved == unresolved
        }),
        event matches ExecuteEvent::Redecided(d) ==> (state.stage == ExecuteStage::Redecision && !(r.1 is Fail) ==> {
            &&& keeps_decision(state, r.0) && keeps_resolution(state, r.0) && keeps_destination(state, r.0) && keeps_reload(state, r.0)
            &&& r.0.fresh_allowed == d.allowed && d.allowed
            &&& r.0.fresh_environment_class == d.environment_class
        }),
        event matches ExecuteEvent::FreshDestination { private } ==> (state.stage == ExecuteStage::FreshDestination ==> {
            &&& keeps_decision(state, r.0) && keeps_resolution(state, r.0) && keeps_destination(state, r.0) && keeps_reload(state, r.0)
            &&& keeps_redecision(state, r.0)
            &&& (state.fresh_url is Some ==> r.0.fresh_private == private)
        }),
        // each kind of event is taken only at its own stage
        !(match (state.stage, event) {
            (ExecuteStage::Decision, ExecuteEvent::Decided(_)) => true,
            (ExecuteStage::Resolution, ExecuteEvent::Resolved { .. }) => true,
            (ExecuteStage::Destination, ExecuteEvent::Destination { .. }) => true,
            (ExecuteStage::Approval, ExecuteEvent::Approval(_)) => true,
            (ExecuteStage::Reload, ExecuteEvent::Reloaded { .. }) => true,
            (ExecuteStage::Redecision, ExecuteEvent::Redecided(_)) => true,
            (ExecuteStage::FreshDestination, ExecuteEvent::FreshDestination { .. }) => true,
            _ => false,
        }) ==> (r.1 matches ExecuteAction::Fail(e) && out_of_order(e)),
        // the first decision
        event matches ExecuteEvent::Decided(d) ==> (state.stage == ExecuteStage::Decision ==> if d.allowed {
            r.1 is Resolve && r.0.stage == ExecuteStage::Resolution
        } else {
            r.1 matches ExecuteAction::Fail(e) && is_tool_error(e, "ACCESS_DENIED"@, crate::text::join_sep(strings_of(d.reasons@), ", "@))
        }),
        // the resolved request
        event matches ExecuteEvent::Resolved { resolved, unresolved } ==> (state.stage == ExecuteStage::Resolution ==> {
            if unresolved.len() > 0 {
                r.1 matches ExecuteAction::Fail(e) && e.code@ == "UNRESOLVED_VARIABLE"@
            } else {
                match crate::json::field_str(resolved@, "url"@) {
                    None => r.1 matches ExecuteAction::Fail(e) && e.code@ == "INVALID_INPUT"@,
                    Some(text) => match url_parse(text) {
                        None => r.1 matches ExecuteAction::Fail(e) && e.code@ == "INVALID_INPUT"@,
                        Some(u) => if web_scheme(u) {
                            r.1 matches ExecuteAction::CheckDestination(v) && v@ == u && r.0.stage == ExecuteStage::Destination
                        } else {
                            r.1 matches ExecuteAction::Fail(e) && is_tool_error(e, "DESTINATION_BLOCKED"@, "Only HTTP and HTTPS URLs are allowed."@)
                        },
                    },
                }
            }
        }),
        // the destination: approval when the rules need it, else reload
        (execute_inv(state) && state.stage == ExecuteStage::Destination && event is Destination) ==> if r.0.approval_required {
            r.1 matches ExecuteAction::Approve { fingerprint, risks, allow_session, .. } && fingerprint@ == r.0.fingerprint@
                && strings_view(risks@) == strings_view(r.0.risks@) && allow_session == crate::tools::execute::allows_session_spec(strings_of(r.0.risks@))
                && r.0.stage == ExecuteStage::Approval
        } else {
            r.1 is Reload && r.0.stage == ExecuteStage::Reload
        },
        // the end of the wait for approval
        event matches ExecuteEvent::Approval(a) ==> (state.stage == ExecuteStage::Approval ==> match a {
            Ok(_) => r.1 is Reload && r.0.stage == ExecuteStage::Reload && r.0.approved,
            Err(e) => r.1 == ExecuteAction::Fail(e),
        }),
        // the reloaded request
        event matches ExecuteEvent::Reloaded { source, resolved, unresolved } ==> (state.stage == ExecuteStage::Reload ==> if unresolved.len() > 0 {
            r.1 matches ExecuteAction::Fail(e) && is_tool_error(e, "UNRESOLVED_VARIABLE"@, "Variables changed after approval."@)
        } else if fingerprint_spec(binding_spec(source@, state.environment_id@, resolved@)) != state.fingerprint@ {
            r.1 matches ExecuteAction::Fail(e) && is_tool_error(e, "APPROVAL_STALE"@, "Request changed after approval."@)
        } else {
            r.1 is Redecide && r.0.stage == ExecuteStage::Redecision
        }),
        // the second decision
        event matches ExecuteEvent::Redecided(d) ==> (state.stage == ExecuteStage::Redecision ==> if !d.allowed {
            r.1 matches ExecuteAction::Fail(e) && is_tool_error(e, "ACCESS_DENIED"@, crate::text::join_sep(strings_of(d.reasons@), ", "@))
        } else {
            match crate::json::field_str(state.fresh_resolved@, "url"@) {
                Some(text) if url_parse(text) is Some => r.1 matches ExecuteAction::CheckFreshDestination(v)
                    && Some(v@) == url_parse(text) && r.0.stage == ExecuteStage::FreshDestination,
                _ => r.1 matches ExecuteAction::Fail(e) && e.code@ == "INVALID_INPUT"@,
            }
        }),
        // the reloaded destination: send only with the approved risks
        (execute_inv(state) && state.stage == ExecuteStage::FreshDestination && event is FreshDestination) ==> if strings_view(r.0.fresh_risks@) == strings_view(state.risks@) {
            r.1 is Send
        } else {
            r.1 matches ExecuteAction::Fail(e) && is_tool_error(e, "APPROVAL_STALE"@, "Destination risk changed after approval."@)
        },
{
    let mut state = state;
    match (state.stage, event) {
        (ExecuteStage::Decision, ExecuteEvent::Decided(d)) => {
            if !d.allowed {
                let e = access_denied(&d.reasons);
                return fail(state, e);
            }
            state.allowed = true;
            state.approval_mode = d.approval_mode;
            state.environment_class = d.environment_class;
            state.stage = ExecuteStage::Resolution;
            (state, ExecuteAction::Resolve)
        },
        (ExecuteStage::Resolution, ExecuteEvent::Resolved { resolved, unresolved }) => {
            if let Err(e) = check_resolved(&unresolved) {
                return fail(state, e);
            }
            let url = match request_url(&resolved) {
                Ok(u) => u,
                Err(e) => return fail(state, e),
            };
            if let Err(e) = check_scheme(&url) {
                return fail(state, e);
            }
            state.method = request_method(&resolved);
            state.resolved = resolved;
            state.unresolved = unresolved;
            let action = ExecuteAction::CheckDestination(copy_url(&url));
            state.url = Some(url);
            state.stage = ExecuteStage::Destination;
            (state, action)
        },
        (ExecuteStage::Destination, ExecuteEvent::Destination { private }) => {
            let url = match &state.url {
                Some(u) => copy_url(u),
                None => return fail(state, internal("Execution event out of order")),
            };
            let trusted = destination_is_trusted(&url, state.trusted_destinations.as_slice());
            let class = match &state.environment_class {
                Some(c) => Some(c.as_str()),
                None => None,
            };
            let risks = execution_risks(state.method.as_str(), &url, class, &state.resolved, private, trusted);
            let print = fingerprint(&binding(&state.source, state.environment_id.as_str(), &state.resolved));
            let required = requires_approval(state.tool_name.as_str(), state.approval_mode.as_str(), risks.as_slice());
            state.private = private;
            state.fingerprint = print;
            state.approval_required = required;
            if required {
                let allow_session = allows_session(&risks);
                let summary = execute_summary(
                    state.workspace_id.as_str(),
                    &state.collection_id,
                    &state.request_id,
                    state.method.as_str(),
                    &url,
                    state.environment_id.as_str(),
                    &state.environment_class,
                    &risks,
                    &state.source,
                    state.sensitive_patterns.as_slice(),
                );
                let action = ExecuteAction::Approve {
                    fingerprint: owned(state.fingerprint.as_str()),
                    risks: copy_strings(&risks),
                    summary,
                    allow_session,
                };
                state.risks = risks;
                state.stage = ExecuteStage::Approval;
                (state, action)
            } else {
                state.risks = risks;
                state.stage = ExecuteStage::Reload;
                (state, ExecuteAction::Reload)
            }
        },
        (ExecuteStage::Approval, ExecuteEvent::Approval(outcome)) => match outcome {
            Ok(_) => {
                state.approved = true;
                state.stage = ExecuteStage::Reload;
                (state, ExecuteAction::Reload)
            },
            Err(e) => fail(state, e),
        },
        (ExecuteStage::Reload, ExecuteEvent::Reloaded { source, resolved, unresolved }) => {
            if let Err(e) = check_still_resolved(&unresolved) {
                return fail(state, e);
            }
            let print = fingerprint(&binding(&source, state.environment_id.as_str(), &resolved));
            if let Err(e) = check_fingerprint(state.fingerprint.as_str(), print.as_str()) {
                return fail(state, e);
            }
            state.fresh_source = source;
            state.fresh_resolved = resolved;
            state.fresh_unresolved = unresolved;
            state.fresh_fingerprint = print;
            state.stage = ExecuteStage::Redecision;
            (state, ExecuteAction::Redecide)
        },
        (ExecuteStage::Redecision, ExecuteEvent::Redecided(d)) => {
            if !d.allowed {
                let e = access_denied(&d.reasons);
                return fail(state, e);
            }
            let url = match request_url(&state.fresh_resolved) {
                Ok(u) => u,
                Err(e) => return fail(state, e),
            };
            state.fresh_allowed = true;
            state.fresh_environment_class = d.environment_class;
            let action = ExecuteAction::CheckFreshDestination(copy_url(&url));
            state.fresh_url = Some(url);
            state.stage = ExecuteStage::FreshDestination;
            (state, action)
        },
        (ExecuteStage::FreshDestination, ExecuteEvent::FreshDestination { private }) => {
            let url = match &state.fresh_url {
                Some(u) => copy_url(u),
                None => return fail(state, internal("Execution event out of order")),
            };
            let trusted = destination_is_trusted(&url, state.trusted_destinations.as_slice());
            let class = match &state.fresh_environment_class {
                Some(c) => Some(c.as_str()),
                None => None,
            };
            let risks = execution_risks(state.method.as_str(), &url, class, &state.fresh_resolved, private, trusted);
            state.fresh_private = private;
            if let Err(e) = check_risks(&state.risks, &risks) {
                state.fresh_risks = risks;
                return fail(state, e);
            }
            state.fresh_risks = risks;
            state.stage = ExecuteStage::Done;
            let resolved = state.fresh_resolved.deep_clone();
            let method = owned(state.method.as_str());
            let text = match state.fresh_resolved.get_str("url") {
                Some(t) => owned(t.as_str()),
                None => return fail(state, internal("Execution event out of order")),
            };
            (state, ExecuteAction::Send { resolved, method, url: text })
        },
        (_, _) => fail(state, internal("Execution event out of order")),
    }
}


/// The outside result that an approved write waits for next.
#[derive(Clone, Copy, Debug, PartialEq, Eq, Structural)]
pub enum WriteStage {
    /// The policy decision.
    Decision,
    /// The caller's own check of the target (a collection that must exist).
    Check,
    /// The user's answer to the approval request.
    Approval,
    /// The document reloaded after approval.
    Reload,
    /// The policy decision after approval.
    Redecision,
    /// Nothing: the write may happen.
    Done,
    /// Nothing: the call was refused or failed.
    Failed,
}

/// What the caller hands back after doing an action of an approved write.
pub enum WriteEvent {
    /// The policy decision.
    Decided(PolicyDecision),
    /// The outcome of the caller's own check.
    Checked(Result<(), ToolError>),
    /// The end of the wait for approval: granted, or the error that ended it.
    Approval(Result<(), ToolError>),
    /// What the approval is bound to, computed again from the reloaded document.
    Reloaded(Json),
    /// The policy decision after approval.
    Redecided(PolicyDecision),
}

/// What the caller of an approved write does next.
pub enum WriteAction {
    /// Evaluate the policy.
    Decide,
    /// Run its own check of the target.
    Check,
    /// Ask the user to approve the write described by the summary; a
    /// session-wide approval is never offered.
    Approve { fingerprint: String, summary: Json },
    /// Load the document again and compute what the approval is bound to.
    Reload,
    /// Evaluate the policy again.
    Redecide,
    /// Write.
    Write,
    /// End the call with this error; nothing is written.
    Fail(ToolError),
}

/// A save or a structure change in progress. Saves and structure changes
/// always need approval.
pub struct WriteState {
    pub stage: WriteStage,
    pub check: bool,
    pub recheck: bool,
    pub fingerprint: String,
    pub summary: Json,
    pub allowed: bool,
    pub checked: bool,
    pub approved: bool,
    pub fresh_fingerprint: String,
    pub fresh_allowed: bool,
}

pub open spec fn write_rank(s: WriteStage) -> int {
    match s {
        WriteStage::Decision => 0,
        WriteStage::Check => 1,
        WriteStage::Approval => 2,
        WriteStage::Reload => 3,
        WriteStage::Redecision => 4,
        WriteStage::Done => 5,
        WriteStage::Failed => 0,
    }
}

/// What each stage of an approved write has established, cumulatively.
pub open spec fn write_inv(s: WriteState) -> bool {
    let r = write_rank(s.stage);
    &&& r >= 1 ==> s.allowed
    &&& r >= 2 ==> (s.check ==> s.checked)
    &&& r >= 3 ==> s.approved
    &&& r >= 4 ==> (s.recheck ==> s.fresh_fingerprint@ == s.fingerprint@)
    &&& r >= 5 ==> s.fresh_allowed
}

/// Everything that must hold before a save or a structure change is written.
pub open spec fn writable(s: WriteState) -> bool {
    &&& s.stage == WriteStage::Done
    &&& s.allowed && s.approved && s.fresh_allowed
    &&& s.check ==> s.checked
    &&& s.recheck ==> s.fresh_fingerprint@ == s.fingerprint@
}

/// An approved write bound to `binding`, waiting for its policy decision;
/// `check` asks for the caller's own check after the decision, `recheck`
/// for the document to be reloaded and compared after approval.
pub fn write_start(binding: &Json, summary: Json, check: bool, recheck: bool) -> (r: (WriteState, WriteAction))
    ensures
        r.0.stage == WriteStage::Decision,
        write_inv(r.0),
        r.1 is Decide,
        r.0.fingerprint@ == fingerprint_spec(binding@),
        r.0.summary@ == summary@,
        r.0.check == check,
        r.0.recheck == recheck,
{
    let state = WriteState {
        stage: WriteStage::Decision,
        check,
        recheck,
        fingerprint: fingerprint(binding),
        summary,
        allowed: false,
        checked: false,
        approved: false,
        fresh_fingerprint: String::new(),
        fresh_allowed: false,
    };
    (state, WriteAction::Decide)
}

fn write_fail(mut state: WriteState, error: ToolError) -> (r: (WriteState, WriteAction))
    ensures
        r.0 == (WriteState { stage: WriteStage::Failed, ..state }),
        r.1 == WriteAction::Fail(error),
{
    state.stage = WriteStage::Failed;
    (state, WriteAction::Fail(error))
}

/// The approval request of a write that has passed its checks.
fn approve(mut state: WriteState) -> (r: (WriteState, WriteAction))
    ensures
        r.0 == (WriteState { stage: WriteStage::Approval, ..state }),
        r.1 matches WriteAction::Approve { fingerprint, summary } && fingerprint@ == state.fingerprint@ && summary@ == state.summary@,
{
    let action = WriteAction::Approve { fingerprint: owned(state.fingerprint.as_str()), summary: state.summary.deep_clone() };
    state.stage = WriteStage::Approval;
    (state, action)
}

/// One step of a save or a structure change. Nothing is written unless the
/// policy allowed it, the caller's check passed where asked for, the user
/// approved it, the reloaded document is bound to the approved fingerprint
/// where asked for, and the policy still allows it.
pub fn write_step(state: WriteState, event: WriteEvent) -> (r: (WriteState, WriteAction))
    ensures
        write_inv(state) ==> write_inv(r.0),
        write_inv(state) && r.1 is Write ==> writable(r.0),
        r.1 is Write ==> state.stage == WriteStage::Redecision && event is Redecided,
        r.1 is Fail ==> r.0.stage == WriteStage::Failed,
        !(match (state.stage, event) {
            (WriteStage::Decision, WriteEvent::Decided(_)) => true,
            (WriteStage::Check, WriteEvent::Checked(_)) => true,
            (WriteStage::Approval, WriteEvent::Approval(_)) => true,
            (WriteStage::Reload, WriteEvent::Reloaded(_)) => true,
            (WriteStage::Redecision, WriteEvent::Redecided(_)) => true,
            _ => false,
        }) ==> (r.1 matches WriteAction::Fail(e) && e.code@ == "INTERNAL_ERROR"@ && e.message@ == "Write event out of order"@),
        event matches WriteEvent::Decided(d) ==> (state.stage == WriteStage::Decision ==> if !d.allowed {
            r.1 matches WriteAction::Fail(e) && is_tool_error(e, "ACCESS_DENIED"@, crate::text::join_sep(strings_of(d.reasons@), ", "@))
        } else if state.check {
            r.1 is Check && r.0.stage == WriteStage::Check
        } else {
            r.1 matches WriteAction::Approve { fingerprint, .. } && fingerprint@ == state.fingerprint@ && r.0.stage == WriteStage::Approval
        }),
        event matches WriteEvent::Checked(c) ==> (state.stage == WriteStage::Check ==> match c {
            Ok(_) => r.1 matches WriteAction::Approve { fingerprint, .. } && fingerprint@ == state.fingerprint@ && r.0.stage == WriteStage::Approval,
            Err(e) => r.1 == WriteAction::Fail(e),
        }),
        event matches WriteEvent::Approval(a) ==> (state.stage == WriteStage::Approval ==> match a {
            Ok(_) => if state.recheck {
                r.1 is Reload && r.0.stage == WriteStage::Reload
            } else {
                r.1 is Redecide && r.0.stage == WriteStage::Redecision
            },
            Err(e) => r.1 == WriteAction::Fail(e),
        }),
        event matches WriteEvent::Reloaded(b) ==> (state.stage == WriteStage::Reload ==> if fingerprint_spec(b@) == state.fingerprint@ {
            r.1 is Redecide && r.0.stage == WriteStage::Redecision
        } else {
            r.1 matches WriteAction::Fail(e) && is_tool_error(e, "STALE_DRAFT"@, "Draft changed after approval."@)
        }),
        event matches WriteEvent::Redecided(d) ==> (state.stage == WriteStage::Redecision ==> if d.allowed {
            r.1 is Write && r.0.stage == WriteStage::Done
        } else {
            r.1 matches WriteAction::Fail(e) && is_tool_error(e, "ACCESS_DENIED"@, crate::text::join_sep(strings_of(d.reasons@), ", "@))
        }),
{
    let mut state = state;
    match (state.stage, event) {
        (WriteStage::Decision, WriteEvent::Decided(d)) => {
            if !d.allowed {
                let e = access_denied(&d.reasons);
                return write_fail(state, e);
            }
            state.allowed = true;
            if state.check {
                state.stage = WriteStage::Check;
                (state, WriteAction::Check)
            } else {
                approve(state)
            }
        },
        (WriteStage::Check, WriteEvent::Checked(outcome)) => match outcome {
            Ok(_) => {
                state.checked = true;
                approve(state)
            },
            Err(e) => write_fail(state, e),
        },
        (WriteStage::Approval, WriteEvent::Approval(outcome)) => match outcome {
            Ok(_) => {
                state.approved = true;
                if state.recheck {
                    state.stage = WriteStage::Reload;
                    (state, WriteAction::Reload)
                } else {
                    state.stage = WriteStage::Redecision;
                    (state, WriteAction::Redecide)
                }
            },
            Err(e) => write_fail(state, e),
        },
        (WriteStage::Reload, WriteEvent::Reloaded(b)) => {
            let print = fingerprint(&b);
            if let Err(e) = check_unchanged(state.fingerprint.as_str(), print.as_str()) {
                return write_fail(state, e);
            }
            state.fresh_fingerprint = print;
            state.stage = WriteStage::Redecision;
            (state, WriteAction::Redecide)
        },
        (WriteStage::Redecision, WriteEvent::Redecided(d)) => {
            if !d.allowed {
                let e = access_denied(&d.reasons);
                return write_fail(state, e);
            }
            state.fresh_allowed = true;
            state.stage = WriteStage::Done;
            (state, WriteAction::Write)
        },
        (_, _) => write_fail(state, internal("Write event out of order")),
    }
}

} // verus!
