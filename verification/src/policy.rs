use vstd::prelude::*;

use crate::json::{field, field_array, field_str, items_view, json_view, lemma_items_view, Json, JsonV};
use crate::text::{ascii_lower, ascii_upper, chars_eq_str, clone_opt_string, lower_chars, opt_ref_view, opt_string_eq, opt_view, owned, str_eq, to_ascii_lowercase, to_chars, trim, trim_spec, upper_chars};
use crate::url::{parse_url, url_parse, UrlInfo, UrlInfoV};
use crate::types::{capability_of_name, min_capability, rank_of, Capability, McpClient, McpPolicy, AuthenticatedSession};

verus! {

/// The scope that a tool call touches and the capability it needs.
#[derive(Clone, Copy, Debug)]
pub struct PolicyContext<'a> {
    pub workspace_id: Option<&'a str>,
    pub collection_id: Option<&'a str>,
    pub environment_id: Option<&'a str>,
    pub required: Capability,
}

/// The outcome of evaluating the policies for one tool call.
#[derive(Debug)]
pub struct PolicyDecision {
    pub allowed: bool,
    pub capability: Capability,
    pub reasons: Vec<String>,
    pub approval_mode: String,
    pub environment_class: Option<String>,
}

/// A policy row applies to a scope when its client is unset or is the
/// client, and its workspace, collection and environment equal the scope's.
pub open spec fn applies_exactly(
    p: McpPolicy,
    client_id: Seq<char>,
    workspace_id: Option<Seq<char>>,
    collection_id: Option<Seq<char>>,
    environment_id: Option<Seq<char>>,
) -> bool {
    &&& (p.client_id is None || p.client_id->0@ == client_id)
    &&& opt_view(p.workspace_id) == workspace_id
    &&& opt_view(p.collection_id) == collection_id
    &&& opt_view(p.environment_id) == environment_id
}

/// The lowest capability among the policies that apply exactly to a scope,
/// or `None` when none applies.
pub open spec fn scope_capability_spec(
    policies: Seq<McpPolicy>,
    client_id: Seq<char>,
    workspace_id: Option<Seq<char>>,
    collection_id: Option<Seq<char>>,
    environment_id: Option<Seq<char>>,
) -> Option<Capability>
    decreases policies.len(),
{
    if policies.len() == 0 {
        None
    } else {
        let rest = scope_capability_spec(
            policies.drop_last(),
            client_id,
            workspace_id,
            collection_id,
            environment_id,
        );
        let last = policies.last();
        if applies_exactly(last, client_id, workspace_id, collection_id, environment_id) {
            match rest {
                None => Some(last.capability),
                Some(r) => Some(min_capability(r, last.capability)),
            }
        } else {
            rest
        }
    }
}

/// The policies that apply exactly to a scope, in their original order.
pub open spec fn applying_rows(
    policies: Seq<McpPolicy>,
    client_id: Seq<char>,
    workspace_id: Option<Seq<char>>,
    collection_id: Option<Seq<char>>,
    environment_id: Option<Seq<char>>,
) -> Seq<McpPolicy>
    decreases policies.len(),
{
    if policies.len() == 0 {
        seq![]
    } else {
        let rest = applying_rows(
            policies.drop_last(),
            client_id,
            workspace_id,
            collection_id,
            environment_id,
        );
        if applies_exactly(policies.last(), client_id, workspace_id, collection_id, environment_id) {
            rest.push(policies.last())
        } else {
            rest
        }
    }
}

/// `start` lowered by the capability of every row.
pub open spec fn lower_by_rows(start: Capability, rows: Seq<McpPolicy>) -> Capability
    decreases rows.len(),
{
    if rows.len() == 0 {
        start
    } else {
        min_capability(lower_by_rows(start, rows.drop_last()), rows.last().capability)
    }
}

/// Some row does not allow the environment to be used.
pub open spec fn some_row_denies_use(rows: Seq<McpPolicy>) -> bool {
    exists|i: int| 0 <= i < rows.len() && rows[i].environment_use != Some(true)
}

/// The capability a session effectively has in a scope: the client's own grant,
/// lowered by the workspace policy (no workspace policy means `Deny`), by the
/// collection policy (when there is one), and by every environment policy.
pub open spec fn effective_capability(
    policies: Seq<McpPolicy>,
    client: McpClient,
    workspace_id: Option<Seq<char>>,
    collection_id: Option<Seq<char>>,
    environment_id: Option<Seq<char>>,
) -> Capability {
    let after_workspace = match workspace_id {
        Some(w) => min_capability(
            client.capability,
            match scope_capability_spec(policies, client.id@, Some(w), None, None) {
                Some(c) => c,
                None => Capability::Deny,
            },
        ),
        None => client.capability,
    };
    let after_collection = match collection_id {
        Some(c) => min_capability(
            after_workspace,
            match scope_capability_spec(policies, client.id@, workspace_id, Some(c), None) {
                Some(x) => x,
                None => after_workspace,
            },
        ),
        None => after_workspace,
    };
    match environment_id {
        Some(e) => lower_by_rows(
            after_collection,
            applying_rows(policies, client.id@, workspace_id, collection_id, Some(e)),
        ),
        None => after_collection,
    }
}

/// The reasons, in order, for which a tool call is refused.
pub open spec fn denial_reasons(
    enabled: bool,
    read_only: bool,
    policies: Seq<McpPolicy>,
    client: McpClient,
    workspace_id: Option<Seq<char>>,
    collection_id: Option<Seq<char>>,
    environment_id: Option<Seq<char>>,
    required: Capability,
) -> Seq<Seq<char>> {
    let r1: Seq<Seq<char>> = if !enabled { seq!["MCP_DISABLED"@] } else { seq![] };
    let r2 = if !client.enabled { r1.push("CLIENT_DISABLED"@) } else { r1 };
    let r3 = if read_only && required != Capability::Read { r2.push("READ_ONLY_MODE"@) } else { r2 };
    let r4 = match environment_id {
        Some(e) => {
            let rows = applying_rows(policies, client.id@, workspace_id, collection_id, Some(e));
            if rows.len() == 0 || some_row_denies_use(rows) {
                r3.push("ENVIRONMENT_DENIED"@)
            } else {
                r3
            }
        },
        None => r3,
    };
    let effective = effective_capability(policies, client, workspace_id, collection_id, environment_id);
    if !(rank_of(effective) >= rank_of(required)) {
        r4.push("CAPABILITY_DENIED"@)
    } else {
        r4
    }
}

/// The first environment policy row of the scope, when an environment is named.
pub open spec fn environment_policy(
    policies: Seq<McpPolicy>,
    client: McpClient,
    workspace_id: Option<Seq<char>>,
    collection_id: Option<Seq<char>>,
    environment_id: Option<Seq<char>>,
) -> Option<McpPolicy> {
    match environment_id {
        Some(e) => {
            let rows = applying_rows(policies, client.id@, workspace_id, collection_id, Some(e));
            if rows.len() > 0 { Some(rows[0]) } else { None }
        },
        None => None,
    }
}

pub open spec fn strings_view(v: Seq<String>) -> Seq<Seq<char>> {
    v.map_values(|s: String| s@)
}

/// The lowest capability among the policies that apply exactly to the scope.
pub fn scope_capability(
    policies: &Vec<McpPolicy>,
    client_id: &str,
    workspace_id: Option<&str>,
    collection_id: Option<&str>,
    environment_id: Option<&str>,
) -> (r: Option<Capability>)
    ensures
        r == scope_capability_spec(
            policies@,
            client_id@,
            opt_ref_view(workspace_id),
            opt_ref_view(collection_id),
            opt_ref_view(environment_id),
        ),
{
    let ghost w = opt_ref_view(workspace_id);
    let ghost c = opt_ref_view(collection_id);
    let ghost e = opt_ref_view(environment_id);
    let mut result: Option<Capability> = None;
    let mut i: usize = 0;
    while i < policies.len()
        invariant
            i <= policies.len(),
            result == scope_capability_spec(policies@.take(i as int), client_id@, w, c, e),
            w == opt_ref_view(workspace_id),
            c == opt_ref_view(collection_id),
            e == opt_ref_view(environment_id),
        decreases policies.len() - i,
    {
        let p = &policies[i];
        assert(policies@.take(i + 1).drop_last() == policies@.take(i as int));
        assert(policies@.take(i + 1).last() == policies@[i as int]);
        if applies_exactly_exec(p, client_id, workspace_id, collection_id, environment_id) {
            result = match result {
                None => Some(p.capability),
                Some(r) => Some(r.minimum(p.capability)),
            };
        }
        i += 1;
    }
    assert(policies@.take(policies.len() as int) == policies@);
    result
}

fn applies_exactly_exec(
    p: &McpPolicy,
    client_id: &str,
    workspace_id: Option<&str>,
    collection_id: Option<&str>,
    environment_id: Option<&str>,
) -> (b: bool)
    ensures
        b == applies_exactly(
            *p,
            client_id@,
            opt_ref_view(workspace_id),
            opt_ref_view(collection_id),
            opt_ref_view(environment_id),
        ),
{
    let client_ok = match &p.client_id {
        None => true,
        Some(id) => str_eq(id.as_str(), client_id),
    };
    client_ok && opt_string_eq(&p.workspace_id, workspace_id) && opt_string_eq(
        &p.collection_id,
        collection_id,
    ) && opt_string_eq(&p.environment_id, environment_id)
}

/// Decides whether a session may make a tool call in a scope, given the
/// global switches and all policy rows. Every reason for refusal is listed,
/// the call is allowed exactly when there is none, and the decision carries
/// the effective capability and the approval mode and class of the
/// environment policy (mode `risky` when there is none).
pub fn evaluate(
    enabled: bool,
    read_only: bool,
    policies: &Vec<McpPolicy>,
    session: &AuthenticatedSession,
    context: &PolicyContext,
) -> (d: PolicyDecision)
    ensures
        d.capability == effective_capability(
            policies@,
            session.client,
            opt_ref_view(context.workspace_id),
            opt_ref_view(context.collection_id),
            opt_ref_view(context.environment_id),
        ),
        strings_view(d.reasons@) == denial_reasons(
            enabled,
            read_only,
            policies@,
            session.client,
            opt_ref_view(context.workspace_id),
            opt_ref_view(context.collection_id),
            opt_ref_view(context.environment_id),
            context.required,
        ),
        d.allowed == (d.reasons.len() == 0),
        context.environment_id matches Some(e) && no_row_for(
            policies@,
            session.client.id@,
            opt_ref_view(context.workspace_id),
            opt_ref_view(context.collection_id),
            e@,
        ) ==> !d.allowed && strings_view(d.reasons@).contains("ENVIRONMENT_DENIED"@),
        d.approval_mode@ == (match environment_policy(
            policies@,
            session.client,
            opt_ref_view(context.workspace_id),
            opt_ref_view(context.collection_id),
            opt_ref_view(context.environment_id),
        ) {
            Some(p) => match p.approval_mode {
                Some(m) => m@,
                None => "risky"@,
            },
            None => "risky"@,
        }),
        opt_view(d.environment_class) == (match environment_policy(
            policies@,
            session.client,
            opt_ref_view(context.workspace_id),
            opt_ref_view(context.collection_id),
            opt_ref_view(context.environment_id),
        ) {
            Some(p) => opt_view(p.environment_class),
            None => None,
        }),
{
    let client = &session.client;
    let ghost w = opt_ref_view(context.workspace_id);
    let ghost c = opt_ref_view(context.collection_id);
    let ghost e = opt_ref_view(context.environment_id);
    let mut reasons: Vec<String> = Vec::new();
    let ghost mut env_denied: int = -1;
    if !enabled {
        reasons.push(owned("MCP_DISABLED"));
    }
    if !client.enabled {
        reasons.push(owned("CLIENT_DISABLED"));
    }
    if read_only && context.required != Capability::Read {
        reasons.push(owned("READ_ONLY_MODE"));
    }
    let mut effective = client.capability;
    if let Some(workspace_id) = context.workspace_id {
        let scope = scope_capability(policies, client.id.as_str(), Some(workspace_id), None, None);
        effective = effective.minimum(
            match scope {
                Some(x) => x,
                None => Capability::Deny,
            },
        );
    }
    if let Some(collection_id) = context.collection_id {
        let scope = scope_capability(
            policies,
            client.id.as_str(),
            context.workspace_id,
            Some(collection_id),
            None,
        );
        effective = effective.minimum(
            match scope {
                Some(x) => x,
                None => effective,
            },
        );
    }
    let mut approval_mode = owned("risky");
    let mut environment_class: Option<String> = None;
    if let Some(environment_id) = context.environment_id {
        let ghost rows_spec = applying_rows(policies@, client.id@, w, c, Some(environment_id@));
        let ghost start = effective;
        let mut count: usize = 0;
        let mut denied_use = false;
        let mut first: Option<usize> = None;
        let mut i: usize = 0;
        while i < policies.len()
            invariant
                i <= policies.len(),
                count == applying_rows(policies@.take(i as int), client.id@, w, c, Some(environment_id@)).len(),
                count <= i,
                denied_use == some_row_denies_use(
                    applying_rows(policies@.take(i as int), client.id@, w, c, Some(environment_id@)),
                ),
                effective == lower_by_rows(
                    start,
                    applying_rows(policies@.take(i as int), client.id@, w, c, Some(environment_id@)),
                ),
                first is None <==> count == 0,
                first matches Some(k) ==> k < i && applying_rows(
                    policies@.take(i as int), client.id@, w, c, Some(environment_id@),
                )[0] == policies@[k as int],
                w == opt_ref_view(context.workspace_id),
                c == opt_ref_view(context.collection_id),
            decreases policies.len() - i,
        {
            let p = &policies[i];
            let ghost prev = applying_rows(policies@.take(i as int), client.id@, w, c, Some(environment_id@));
            assert(policies@.take(i + 1).drop_last() == policies@.take(i as int));
            assert(policies@.take(i + 1).last() == policies@[i as int]);
            if applies_exactly_exec(
                p,
                client.id.as_str(),
                context.workspace_id,
                context.collection_id,
                Some(environment_id),
            ) {
                let ghost now = prev.push(policies@[i as int]);
                assert(some_row_denies_use(now) == (some_row_denies_use(prev) || p.environment_use != Some(true))) by {
                    if p.environment_use != Some(true) {
                        assert(now[now.len() - 1] == *p);
                    }
                    if some_row_denies_use(prev) {
                        let j = choose|j: int| 0 <= j < prev.len() && prev[j].environment_use != Some(true);
                        assert(now[j] == prev[j]);
                    }
                    if some_row_denies_use(now) {
                        let j = choose|j: int| 0 <= j < now.len() && now[j].environment_use != Some(true);
                        if j < prev.len() {
                            assert(now[j] == prev[j]);
                        }
                    }
                }
                assert(now.drop_last() == prev);
                if p.environment_use != Some(true) {
                    denied_use = true;
                }
                effective = effective.minimum(p.capability);
                if first.is_none() {
                    first = Some(i);
                } else {
                    assert(now[0] == prev[0]);
                }
                count += 1;
            }
            i += 1;
        }
        assert(policies@.take(policies.len() as int) == policies@);
        proof {
            if no_row_for(policies@, client.id@, w, c, environment_id@) {
                lemma_no_applying_rows(policies@, client.id@, w, c, environment_id@);
            }
        }
        if count == 0 || denied_use {
            reasons.push(owned("ENVIRONMENT_DENIED"));
            proof {
                env_denied = reasons.len() - 1;
            }
        }
        if let Some(k) = first {
            let row = &policies[k];
            approval_mode = match &row.approval_mode {
                Some(m) => m.clone(),
                None => owned("risky"),
            };
            environment_class = clone_opt_string(&row.environment_class);
        }
    }
    if !effective.allows(context.required) {
        reasons.push(owned("CAPABILITY_DENIED"));
    }
    proof {
        reveal_strlit("MCP_DISABLED");
    }
    proof {
        if env_denied >= 0 {
            assert(strings_view(reasons@)[env_denied] == "ENVIRONMENT_DENIED"@);
        }
    }
    let allowed = reasons.len() == 0;
    PolicyDecision { allowed, capability: effective, reasons, approval_mode, environment_class }
}

} // verus!

verus! {

/// The request uploads a file: its `body.formData` array has a row whose
/// `valueType` is `"file"`.
pub open spec fn has_file_upload(request: JsonV) -> bool {
    match field(request, "body"@) {
        Some(body) => match field_array(body, "formData"@) {
            Some(rows) => exists|i: int| 0 <= i < rows.len() && field_str(#[trigger] rows[i], "valueType"@) == Some("file"@),
            None => false,
        },
        None => false,
    }
}

/// The method is one that only reads: `GET`, `HEAD` or `OPTIONS`, in any ASCII case.
pub open spec fn is_safe_method(method: Seq<char>) -> bool {
    let m = ascii_upper(method);
    m == "GET"@ || m == "HEAD"@ || m == "OPTIONS"@
}

/// The risks of executing a request, in this order: a production
/// environment, a method that writes, plain HTTP, a private destination that
/// is not trusted, a file upload.
pub open spec fn execution_risks_spec(
    method: Seq<char>,
    scheme: Seq<char>,
    environment_class: Option<Seq<char>>,
    request: JsonV,
    private_destination: bool,
    trusted_destination: bool,
) -> Seq<Seq<char>> {
    let r1: Seq<Seq<char>> = match environment_class {
        Some(c) if ascii_lower(c) == "production"@ => seq!["PRODUCTION_ENVIRONMENT"@],
        _ => seq![],
    };
    let r2 = if !is_safe_method(method) { r1.push("UNSAFE_METHOD"@) } else { r1 };
    let r3 = if scheme == "http"@ { r2.push("PLAIN_HTTP"@) } else { r2 };
    let r4 = if private_destination && !trusted_destination { r3.push("PRIVATE_DESTINATION"@) } else { r3 };
    if has_file_upload(request) { r4.push("FILE_UPLOAD"@) } else { r4 }
}

fn has_file_upload_exec(request: &Json) -> (b: bool)
    ensures
        b == has_file_upload(request@),
{
    let body = match request.get("body") {
        Some(b) => b,
        None => return false,
    };
    let rows = match body.get_array("formData") {
        Some(r) => r,
        None => return false,
    };
    proof {
        lemma_items_view(rows@);
    }
    let ghost rv = items_view(rows@);
    let mut i: usize = 0;
    while i < rows.len()
        invariant
            i <= rows.len(),
            rv == items_view(rows@),
            field(request@, "body"@) == Some(body@),
            field_array(body@, "formData"@) == Some(rv),
            rv.len() == rows.len(),
            forall|k: int| 0 <= k < rows.len() ==> #[trigger] rv[k] == json_view(rows@[k]),
            forall|k: int| 0 <= k < i ==> field_str(#[trigger] rv[k], "valueType"@) != Some("file"@),
        decreases rows.len() - i,
    {
        match rows[i].get_str("valueType") {
            Some(t) => {
                if str_eq(t.as_str(), "file") {
                    proof {
                        reveal_strlit("file");
                        assert(field_str(rv[i as int], "valueType"@) == Some("file"@));
                    }
                    return true;
                }
            },
            None => {},
        }
        i += 1;
    }
    false
}

/// The risks of executing a request: a production environment class (in
/// any ASCII case), a method other than `GET`, `HEAD` and `OPTIONS`, plain
/// HTTP, a private destination that is not trusted, and a file upload.
pub fn execution_risks(
    method: &str,
    url: &UrlInfo,
    environment_class: Option<&str>,
    request: &Json,
    private_destination: bool,
    trusted_destination: bool,
) -> (risks: Vec<String>)
    ensures
        strings_view(risks@) == execution_risks_spec(
            method@,
            url.scheme@,
            opt_ref_view(environment_class),
            request@,
            private_destination,
            trusted_destination,
        ),
        strings_view(risks@).contains("UNSAFE_METHOD"@) <==> !(ascii_upper(method@) == "GET"@
            || ascii_upper(method@) == "HEAD"@ || ascii_upper(method@) == "OPTIONS"@),
{
    proof {
        law_unsafe_method_flagged(
            method@,
            url.scheme@,
            opt_ref_view(environment_class),
            request@,
            private_destination,
            trusted_destination,
        );
    }
    let mut risks: Vec<String> = Vec::new();
    if let Some(class) = environment_class {
        let c = to_chars(class);
        let lowered = lower_chars(c.as_slice());
        if chars_eq_str(lowered.as_slice(), "production") {
            risks.push(owned("PRODUCTION_ENVIRONMENT"));
        }
    }
    let m = to_chars(method);
    let upper = upper_chars(m.as_slice());
    let safe = chars_eq_str(upper.as_slice(), "GET") || chars_eq_str(upper.as_slice(), "HEAD")
        || chars_eq_str(upper.as_slice(), "OPTIONS");
    if !safe {
        risks.push(owned("UNSAFE_METHOD"));
    }
    if str_eq(url.scheme.as_str(), "http") {
        risks.push(owned("PLAIN_HTTP"));
    }
    if private_destination && !trusted_destination {
        risks.push(owned("PRIVATE_DESTINATION"));
    }
    if has_file_upload_exec(request) {
        risks.push(owned("FILE_UPLOAD"));
    }
    proof {
        assert(strings_view(risks@) == execution_risks_spec(
            method@,
            url.scheme@,
            opt_ref_view(environment_class),
            request@,
            private_destination,
            trusted_destination,
        ));
    }
    risks
}

/// Only methods that write are a risk: the risks of a request hold
/// `UNSAFE_METHOD` exactly when its method, raised to ASCII upper case, is
/// none of `GET`, `HEAD` and `OPTIONS`, whatever the rest of the request.
pub proof fn law_unsafe_method_flagged(
    method: Seq<char>,
    scheme: Seq<char>,
    environment_class: Option<Seq<char>>,
    request: JsonV,
    private_destination: bool,
    trusted_destination: bool,
)
    ensures
        execution_risks_spec(method, scheme, environment_class, request, private_destination, trusted_destination).contains(
            "UNSAFE_METHOD"@,
        ) <==> !(ascii_upper(method) == "GET"@ || ascii_upper(method) == "HEAD"@ || ascii_upper(method) == "OPTIONS"@),
{
    reveal_strlit("UNSAFE_METHOD");
    reveal_strlit("PRODUCTION_ENVIRONMENT");
    reveal_strlit("PLAIN_HTTP");
    reveal_strlit("PRIVATE_DESTINATION");
    reveal_strlit("FILE_UPLOAD");
    let u: Seq<char> = "UNSAFE_METHOD"@;
    assert(u.len() == 13);
    assert("PRODUCTION_ENVIRONMENT"@.len() == 22);
    assert("PLAIN_HTTP"@.len() == 10);
    assert("PRIVATE_DESTINATION"@.len() == 19);
    assert("FILE_UPLOAD"@.len() == 11);
    let r1: Seq<Seq<char>> = match environment_class {
        Some(c) if ascii_lower(c) == "production"@ => seq!["PRODUCTION_ENVIRONMENT"@],
        _ => seq![],
    };
    let safe = ascii_upper(method) == "GET"@ || ascii_upper(method) == "HEAD"@ || ascii_upper(method) == "OPTIONS"@;
    let r2 = if !safe { r1.push(u) } else { r1 };
    let r3 = if scheme == "http"@ { r2.push("PLAIN_HTTP"@) } else { r2 };
    let r4 = if private_destination && !trusted_destination { r3.push("PRIVATE_DESTINATION"@) } else { r3 };
    let r = if has_file_upload(request) { r4.push("FILE_UPLOAD"@) } else { r4 };
    assert(r == execution_risks_spec(method, scheme, environment_class, request, private_destination, trusted_destination));
    assert(forall|i: int| 0 <= i < r1.len() ==> r1[i] != u);
    if safe {
        assert forall|i: int| 0 <= i < r.len() implies r[i] != u by {
            if i < r1.len() {
                assert(r[i] == r1[i]);
            }
        }
    } else {
        assert(r2[r1.len() as int] == u);
        assert(r[r1.len() as int] == u);
    }
}

/// A trusted destination, trimmed and ASCII-lowered, names the URL's host
/// either as the host itself or as a URL with that host.
pub open spec fn destination_names_host(destination: Seq<char>, host: Seq<char>) -> bool {
    let d = ascii_lower(trim_spec(destination));
    d == host || match url_parse(d) {
        Some(u) => u.host == Some(host),
        None => false,
    }
}

/// Whether a URL's host is one of the trusted destinations.
pub open spec fn destination_is_trusted_spec(url: UrlInfoV, trusted: Seq<Seq<char>>) -> bool {
    match url.host {
        Some(h) => exists|i: int| 0 <= i < trusted.len() && destination_names_host(#[trigger] trusted[i], h),
        None => false,
    }
}

/// Whether the URL's host is trusted: some trusted destination, trimmed and
/// lowered, is the host or a URL whose host is it. A URL without a host is
/// never trusted.
pub fn destination_is_trusted(url: &UrlInfo, trusted_destinations: &[String]) -> (b: bool)
    ensures
        b == destination_is_trusted_spec(url@, strings_view(trusted_destinations@)),
{
    let host = match &url.host {
        Some(h) => h,
        None => return false,
    };
    let mut i: usize = 0;
    while i < trusted_destinations.len()
        invariant
            i <= trusted_destinations.len(),
            url.host == Some(*host),
            forall|k: int| 0 <= k < i ==> !destination_names_host(#[trigger] strings_view(trusted_destinations@)[k], host@),
        decreases trusted_destinations.len() - i,
    {
        let trimmed = trim(trusted_destinations[i].as_str());
        let d = to_ascii_lowercase(trimmed.as_str());
        let mut names = str_eq(d.as_str(), host.as_str());
        if !names {
            match parse_url(d.as_str()) {
                Some(u) => {
                    names = opt_string_eq(&u.host, Some(host.as_str()));
                },
                None => {},
            }
        }
        assert(strings_view(trusted_destinations@)[i as int] == trusted_destinations@[i as int]@);
        if names {
            return true;
        }
        i += 1;
    }
    false
}

/// Whether a tool call must wait for the user's approval: saving a draft
/// always does; otherwise the approval mode `always` does, and every other
/// mode does exactly when there are risks.
pub open spec fn requires_approval_spec(tool_name: Seq<char>, approval_mode: Seq<char>, risks_len: nat) -> bool {
    if tool_name == "tesapi_save_request_draft"@ {
        true
    } else if approval_mode == "always"@ {
        true
    } else {
        risks_len > 0
    }
}

/// Saving a draft always waits for the user's approval, and so does any
/// call with a risk, whatever the approval mode.
pub proof fn law_saves_and_risks_need_approval(tool_name: Seq<char>, approval_mode: Seq<char>, risks_len: nat)
    ensures
        requires_approval_spec("tesapi_save_request_draft"@, approval_mode, risks_len),
        risks_len > 0 ==> requires_approval_spec(tool_name, approval_mode, risks_len),
        approval_mode == "always"@ ==> requires_approval_spec(tool_name, approval_mode, risks_len),
{
}

/// Whether a tool call must wait for the user's approval.
pub fn requires_approval(tool_name: &str, approval_mode: &str, risks: &[String]) -> (b: bool)
    ensures
        b == requires_approval_spec(tool_name@, approval_mode@, risks@.len()),
{
    if str_eq(tool_name, "tesapi_save_request_draft") {
        return true;
    }
    if str_eq(approval_mode, "always") {
        true
    } else {
        risks.len() > 0
    }
}

} // verus!

verus! {

/// An optional scope field of a policy matches a scope when the policy
/// leaves it unset or sets it to the scope's value.
pub open spec fn wildcard_matches(field: Option<String>, scope: Option<Seq<char>>) -> bool {
    match field {
        None => true,
        Some(v) => scope == Some(v@),
    }
}

/// A policy is relevant to a scope when each of its set fields matches it.
pub open spec fn policy_matches(
    p: McpPolicy,
    client_id: Seq<char>,
    workspace_id: Option<Seq<char>>,
    collection_id: Option<Seq<char>>,
    environment_id: Option<Seq<char>>,
) -> bool {
    &&& wildcard_matches(p.client_id, Some(client_id))
    &&& wildcard_matches(p.workspace_id, workspace_id)
    &&& wildcard_matches(p.collection_id, collection_id)
    &&& wildcard_matches(p.environment_id, environment_id)
}

/// The relevant policies, in their original order.
pub open spec fn matching_spec(
    policies: Seq<McpPolicy>,
    client_id: Seq<char>,
    workspace_id: Option<Seq<char>>,
    collection_id: Option<Seq<char>>,
    environment_id: Option<Seq<char>>,
) -> Seq<McpPolicy> {
    policies.filter(|p: McpPolicy| policy_matches(p, client_id, workspace_id, collection_id, environment_id))
}

fn wildcard_matches_exec(field: &Option<String>, scope: Option<&str>) -> (b: bool)
    ensures
        b == wildcard_matches(*field, opt_ref_view(scope)),
{
    match field {
        None => true,
        Some(v) => match scope {
            Some(s) => str_eq(v.as_str(), s),
            None => false,
        },
    }
}

/// The policies whose set fields all match the scope (an unset field
/// matches anything), in their original order.
pub fn matching(
    policies: &Vec<McpPolicy>,
    client_id: &str,
    workspace_id: Option<&str>,
    collection_id: Option<&str>,
    environment_id: Option<&str>,
) -> (r: Vec<McpPolicy>)
    ensures
        r@ == matching_spec(
            policies@,
            client_id@,
            opt_ref_view(workspace_id),
            opt_ref_view(collection_id),
            opt_ref_view(environment_id),
        ),
{
    let ghost pred = |p: McpPolicy|
        policy_matches(
            p,
            client_id@,
            opt_ref_view(workspace_id),
            opt_ref_view(collection_id),
            opt_ref_view(environment_id),
        );
    let mut out: Vec<McpPolicy> = Vec::new();
    let mut i: usize = 0;
    while i < policies.len()
        invariant
            i <= policies.len(),
            pred == (|p: McpPolicy|
                policy_matches(
                    p,
                    client_id@,
                    opt_ref_view(workspace_id),
                    opt_ref_view(collection_id),
                    opt_ref_view(environment_id),
                )),
            out@ == policies@.take(i as int).filter(pred),
        decreases policies.len() - i,
    {
        let p = &policies[i];
        let ok = wildcard_matches_exec(&p.client_id, Some(client_id)) && wildcard_matches_exec(
            &p.workspace_id,
            workspace_id,
        ) && wildcard_matches_exec(&p.collection_id, collection_id) && wildcard_matches_exec(
            &p.environment_id,
            environment_id,
        );
        assert(policies@.take(i + 1).drop_last() == policies@.take(i as int));
        reveal_with_fuel(Seq::filter, 1);
        if ok {
            out.push(p.clone());
        }
        i += 1;
    }
    assert(policies@.take(policies.len() as int) == policies@);
    out
}

} // verus!

verus! {

proof fn lemma_lower_by_rows_le(start: Capability, rows: Seq<McpPolicy>)
    ensures
        rank_of(lower_by_rows(start, rows)) <= rank_of(start),
    decreases rows.len(),
{
    if rows.len() > 0 {
        lemma_lower_by_rows_le(start, rows.drop_last());
    }
}

/// A session never gets more than its client was granted, whatever the policies say.
pub proof fn law_effective_never_exceeds_client(
    policies: Seq<McpPolicy>,
    client: McpClient,
    workspace_id: Option<Seq<char>>,
    collection_id: Option<Seq<char>>,
    environment_id: Option<Seq<char>>,
)
    ensures
        rank_of(effective_capability(policies, client, workspace_id, collection_id, environment_id))
            <= rank_of(client.capability),
{
    let after_workspace = match workspace_id {
        Some(w) => min_capability(
            client.capability,
            match scope_capability_spec(policies, client.id@, Some(w), None, None) {
                Some(c) => c,
                None => Capability::Deny,
            },
        ),
        None => client.capability,
    };
    let after_collection = match collection_id {
        Some(c) => min_capability(
            after_workspace,
            match scope_capability_spec(policies, client.id@, workspace_id, Some(c), None) {
                Some(x) => x,
                None => after_workspace,
            },
        ),
        None => after_workspace,
    };
    if let Some(e) = environment_id {
        lemma_lower_by_rows_le(
            after_collection,
            applying_rows(policies, client.id@, workspace_id, collection_id, Some(e)),
        );
    }
}

/// Inside a workspace, a collection (or environment) policy never raises the
/// capability above what the workspace policy grants; a workspace without a
/// policy grants nothing.
pub proof fn law_scope_never_exceeds_workspace(
    policies: Seq<McpPolicy>,
    client: McpClient,
    w: Seq<char>,
    collection_id: Option<Seq<char>>,
    environment_id: Option<Seq<char>>,
)
    ensures
        rank_of(effective_capability(policies, client, Some(w), collection_id, environment_id))
            <= match scope_capability_spec(policies, client.id@, Some(w), None, None) {
                Some(c) => rank_of(c),
                None => 0,
            },
{
    let after_workspace = min_capability(
        client.capability,
        match scope_capability_spec(policies, client.id@, Some(w), None, None) {
            Some(c) => c,
            None => Capability::Deny,
        },
    );
    let after_collection = match collection_id {
        Some(c) => min_capability(
            after_workspace,
            match scope_capability_spec(policies, client.id@, Some(w), Some(c), None) {
                Some(x) => x,
                None => after_workspace,
            },
        ),
        None => after_workspace,
    };
    if let Some(e) = environment_id {
        lemma_lower_by_rows_le(
            after_collection,
            applying_rows(policies, client.id@, Some(w), collection_id, Some(e)),
        );
    }
}

/// A call is refused when MCP is off, when the client is disabled, in
/// read-only mode for anything but reading, and whenever the effective
/// capability does not cover the requirement; an allowed call always has
/// the capability it needs.
pub proof fn law_refusals(
    enabled: bool,
    read_only: bool,
    policies: Seq<McpPolicy>,
    client: McpClient,
    workspace_id: Option<Seq<char>>,
    collection_id: Option<Seq<char>>,
    environment_id: Option<Seq<char>>,
    required: Capability,
)
    ensures
        ({
            let reasons = denial_reasons(
                enabled,
                read_only,
                policies,
                client,
                workspace_id,
                collection_id,
                environment_id,
                required,
            );
            let effective = effective_capability(policies, client, workspace_id, collection_id, environment_id);
            &&& !enabled ==> reasons.contains("MCP_DISABLED"@)
            &&& !client.enabled ==> reasons.contains("CLIENT_DISABLED"@)
            &&& (read_only && required != Capability::Read) ==> reasons.contains("READ_ONLY_MODE"@)
            &&& !(rank_of(effective) >= rank_of(required)) ==> reasons.contains("CAPABILITY_DENIED"@)
            &&& reasons.len() == 0 ==> rank_of(effective) >= rank_of(required) && enabled && client.enabled
            &&& (reasons.len() == 0 && read_only) ==> required == Capability::Read
        }),
{
    let r1: Seq<Seq<char>> = if !enabled { seq!["MCP_DISABLED"@] } else { seq![] };
    let r2 = if !client.enabled { r1.push("CLIENT_DISABLED"@) } else { r1 };
    let r3 = if read_only && required != Capability::Read { r2.push("READ_ONLY_MODE"@) } else { r2 };
    let r4 = match environment_id {
        Some(e) => {
            let rows = applying_rows(policies, client.id@, workspace_id, collection_id, Some(e));
            if rows.len() == 0 || some_row_denies_use(rows) {
                r3.push("ENVIRONMENT_DENIED"@)
            } else {
                r3
            }
        },
        None => r3,
    };
    let reasons = denial_reasons(enabled, read_only, policies, client, workspace_id, collection_id, environment_id, required);
    assert(r1.len() <= r2.len() <= r3.len() <= r4.len() <= reasons.len());
    if !enabled {
        assert(r1[0] == "MCP_DISABLED"@);
        assert(reasons[0] == "MCP_DISABLED"@);
    }
    if !client.enabled {
        assert(reasons[r2.len() - 1] == "CLIENT_DISABLED"@);
    }
    if read_only && required != Capability::Read {
        assert(reasons[r3.len() - 1] == "READ_ONLY_MODE"@);
    }
    let effective = effective_capability(policies, client, workspace_id, collection_id, environment_id);
    if !(rank_of(effective) >= rank_of(required)) {
        assert(reasons[reasons.len() - 1] == "CAPABILITY_DENIED"@);
    }
}


/// No row of `rows` applies exactly to the client, workspace, collection and
/// environment: none has an unset or equal client and equal scope ids.
pub open spec fn no_row_for(
    rows: Seq<McpPolicy>,
    client_id: Seq<char>,
    workspace_id: Option<Seq<char>>,
    collection_id: Option<Seq<char>>,
    environment_id: Seq<char>,
) -> bool {
    forall|i: int| 0 <= i < rows.len() ==> !{
        &&& (#[trigger] rows[i]).client_id is None || rows[i].client_id->0@ == client_id
        &&& opt_view(rows[i].workspace_id) == workspace_id
        &&& opt_view(rows[i].collection_id) == collection_id
        &&& opt_view(rows[i].environment_id) == Some(environment_id)
    }
}

proof fn lemma_no_applying_rows(
    policies: Seq<McpPolicy>,
    client_id: Seq<char>,
    workspace_id: Option<Seq<char>>,
    collection_id: Option<Seq<char>>,
    e: Seq<char>,
)
    requires
        no_row_for(policies, client_id, workspace_id, collection_id, e),
    ensures
        applying_rows(policies, client_id, workspace_id, collection_id, Some(e)).len() == 0,
    decreases policies.len(),
{
    if policies.len() > 0 {
        let front = policies.drop_last();
        assert forall|i: int| 0 <= i < front.len() implies !{
            &&& (#[trigger] front[i]).client_id is None || front[i].client_id->0@ == client_id
            &&& opt_view(front[i].workspace_id) == workspace_id
            &&& opt_view(front[i].collection_id) == collection_id
            &&& opt_view(front[i].environment_id) == Some(e)
        } by {
            assert(front[i] == policies[i]);
        }
        lemma_no_applying_rows(front, client_id, workspace_id, collection_id, e);
        assert(policies[policies.len() - 1] == policies.last());
    }
}

/// An environment needs a policy: a call that names an environment for
/// which no policy row applies exactly (to the client or to every client,
/// and to the same workspace, collection and environment) is refused with
/// `ENVIRONMENT_DENIED`.
pub proof fn law_environment_needs_policy(
    enabled: bool,
    read_only: bool,
    policies: Seq<McpPolicy>,
    client: McpClient,
    workspace_id: Option<Seq<char>>,
    collection_id: Option<Seq<char>>,
    environment_id: Seq<char>,
    required: Capability,
)
    requires
        no_row_for(policies, client.id@, workspace_id, collection_id, environment_id),
    ensures
        denial_reasons(enabled, read_only, policies, client, workspace_id, collection_id, Some(environment_id), required).contains(
            "ENVIRONMENT_DENIED"@,
        ),
        denial_reasons(enabled, read_only, policies, client, workspace_id, collection_id, Some(environment_id), required).len() > 0,
{
    lemma_no_applying_rows(policies, client.id@, workspace_id, collection_id, environment_id);
    let r = denial_reasons(enabled, read_only, policies, client, workspace_id, collection_id, Some(environment_id), required);
    let r1: Seq<Seq<char>> = if !enabled { seq!["MCP_DISABLED"@] } else { seq![] };
    let r2 = if !client.enabled { r1.push("CLIENT_DISABLED"@) } else { r1 };
    let r3 = if read_only && required != Capability::Read { r2.push("READ_ONLY_MODE"@) } else { r2 };
    let r4 = r3.push("ENVIRONMENT_DENIED"@);
    assert(r4[r4.len() - 1] == "ENVIRONMENT_DENIED"@);
    let effective = effective_capability(policies, client, workspace_id, collection_id, Some(environment_id));
    if !(rank_of(effective) >= rank_of(required)) {
        assert(r == r4.push("CAPABILITY_DENIED"@));
        assert(r[r4.len() - 1] == "ENVIRONMENT_DENIED"@);
    } else {
        assert(r == r4);
    }
}

} // verus!
