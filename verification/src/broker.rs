use vstd::prelude::*;

use crate::json::{entries_view, field_str, json_parse_bytes, lemma_entries_view, parse_json_slice, Json, JsonV};
use crate::security::{hash_spec, token_matches};
use crate::text::{opt_view, owned, str_eq};
use crate::tools::ToolError;
use crate::types::{AuthenticatedSession, BrokerRequest, BrokerResponse};

verus! {

/// The largest message the broker reads, in bytes.
pub const MAX_MESSAGE_BYTES: usize = 1024 * 1024;

/// The most calls a client may make within a minute.
pub const MAX_CALLS_PER_MINUTE: usize = 120;

/// The window of the rate limit, in milliseconds.
pub const WINDOW_MS: u64 = 60000;

/// A failed answer: the code and message, no result and no session.
pub open spec fn is_error_response(r: BrokerResponse, request_id: Seq<char>, code: Seq<char>, message: Seq<char>) -> bool {
    &&& r.request_id@ == request_id
    &&& !r.ok
    &&& r.result is None
    &&& opt_view(r.error_code) == Some(code)
    &&& opt_view(r.error_message) == Some(message)
    &&& r.session_id is None
}

/// An error answer to a request.
pub fn error_response(request_id: &str, code: &str, message: &str) -> (r: BrokerResponse)
    ensures
        is_error_response(r, request_id@, code@, message@),
{
    BrokerResponse {
        request_id: owned(request_id),
        ok: false,
        result: None,
        error_code: Some(owned(code)),
        error_message: Some(owned(message)),
        session_id: None,
    }
}

/// The request id that a raw message carries, or the empty text.
pub open spec fn request_id_spec(bytes: Seq<u8>) -> Seq<char> {
    match json_parse_bytes(bytes) {
        Some(v) => match field_str(v, "requestId"@) {
            Some(id) => id,
            None => seq![],
        },
        None => seq![],
    }
}

/// The request id of a raw message, for answering even a malformed one.
pub fn request_id_of(bytes: &[u8]) -> (r: String)
    ensures
        r@ == request_id_spec(bytes@),
{
    match parse_json_slice(bytes) {
        Some(v) => match v.get_str("requestId") {
            Some(id) => id.clone(),
            None => String::new(),
        },
        None => String::new(),
    }
}

/// The calls of one client within the window, oldest first.
pub struct RateLimiter {
    pub windows: Vec<(String, Vec<u64>)>,
}

/// The recorded calls of a client (none when it has made none).
pub open spec fn calls_of(ws: Seq<(String, Vec<u64>)>, client: Seq<char>) -> Seq<u64>
    decreases ws.len(),
{
    if ws.len() == 0 {
        seq![]
    } else if ws[0].0@ == client {
        ws[0].1@
    } else {
        calls_of(ws.drop_first(), client)
    }
}

/// The calls that are not older than `cutoff`: older ones leave from the front.
pub open spec fn drop_old(calls: Seq<u64>, cutoff: u64) -> Seq<u64>
    decreases calls.len(),
{
    if calls.len() > 0 && calls[0] < cutoff {
        drop_old(calls.drop_first(), cutoff)
    } else {
        calls
    }
}

/// The start of the window that ends at `now`.
pub open spec fn cutoff(now: u64) -> u64 {
    if now >= 60000 { (now - 60000) as u64 } else { 0 }
}

/// One call at `now`: whether it is allowed (fewer than 120 calls remain in
/// the window) and the calls recorded afterwards.
pub open spec fn rate_step(calls: Seq<u64>, now: u64) -> (bool, Seq<u64>) {
    let kept = drop_old(calls, cutoff(now));
    if kept.len() < 120 {
        (true, kept.push(now))
    } else {
        (false, kept)
    }
}

proof fn lemma_calls_of_index(ws: Seq<(String, Vec<u64>)>, client: Seq<char>, i: int)
    requires
        0 <= i < ws.len(),
        ws[i].0@ == client,
        forall|j: int| 0 <= j < i ==> ws[j].0@ != client,
    ensures
        calls_of(ws, client) == ws[i].1@,
    decreases i,
{
    if i > 0 {
        lemma_calls_of_index(ws.drop_first(), client, i - 1);
    }
}

proof fn lemma_calls_of_none(ws: Seq<(String, Vec<u64>)>, client: Seq<char>)
    requires
        forall|j: int| 0 <= j < ws.len() ==> ws[j].0@ != client,
    ensures
        calls_of(ws, client) == Seq::<u64>::empty(),
    decreases ws.len(),
{
    if ws.len() > 0 {
        lemma_calls_of_none(ws.drop_first(), client);
    }
}

proof fn lemma_calls_of_update(ws: Seq<(String, Vec<u64>)>, i: int, e: (String, Vec<u64>), other: Seq<char>)
    requires
        0 <= i < ws.len(),
        e.0@ == ws[i].0@,
        other != ws[i].0@,
    ensures
        calls_of(ws.update(i, e), other) == calls_of(ws, other),
    decreases ws.len(),
{
    if i == 0 {
        assert(ws.update(i, e).drop_first() == ws.drop_first());
        assert(ws.update(i, e)[0] == e);
    } else {
        assert(ws.update(i, e)[0] == ws[0]);
        if ws[0].0@ != other {
            assert(ws.update(i, e).drop_first() == ws.drop_first().update(i - 1, e));
            lemma_calls_of_update(ws.drop_first(), i - 1, e, other);
        }
    }
}

proof fn lemma_calls_of_push(ws: Seq<(String, Vec<u64>)>, e: (String, Vec<u64>), client: Seq<char>)
    requires
        forall|j: int| 0 <= j < ws.len() ==> ws[j].0@ != e.0@,
    ensures
        client != e.0@ ==> calls_of(ws.push(e), client) == calls_of(ws, client),
        client == e.0@ ==> calls_of(ws.push(e), client) == e.1@,
    decreases ws.len(),
{
    if ws.len() > 0 {
        assert(ws.push(e).drop_first() == ws.drop_first().push(e));
        assert(ws.push(e)[0] == ws[0]);
        lemma_calls_of_push(ws.drop_first(), e, client);
    } else {
        assert(ws.push(e)[0] == e);
        assert(ws.push(e).drop_first() == Seq::<(String, Vec<u64>)>::empty());
        assert(calls_of(Seq::<(String, Vec<u64>)>::empty(), client) == Seq::<u64>::empty());
        assert(ws == Seq::<(String, Vec<u64>)>::empty());
    }
}

impl RateLimiter {
    /// A limiter without any recorded call.
    pub fn new() -> (r: RateLimiter)
        ensures
            forall|c: Seq<char>| calls_of(r.windows@, c) == Seq::<u64>::empty(),
    {
        RateLimiter { windows: Vec::new() }
    }

    /// Records a call of `client_id` at `now` (milliseconds) when fewer than
    /// 120 of its calls fall in the last minute; says whether it was allowed.
    pub fn allow(&mut self, client_id: &str, now: u64) -> (r: bool)
        ensures
            r == rate_step(calls_of(old(self).windows@, client_id@), now).0,
            calls_of(final(self).windows@, client_id@) == rate_step(calls_of(old(self).windows@, client_id@), now).1,
            forall|c: Seq<char>| c != client_id@ ==> calls_of(final(self).windows@, c) == calls_of(old(self).windows@, c),
    {
        let ghost ws0 = self.windows@;
        let mut i: usize = 0;
        while i < self.windows.len() && !str_eq(self.windows[i].0.as_str(), client_id)
            invariant
                i <= self.windows.len(),
                self.windows@ == ws0,
                forall|j: int| 0 <= j < i ==> ws0[j].0@ != client_id@,
            decreases self.windows.len() - i,
        {
            i += 1;
        }
        let empty: Vec<u64> = Vec::new();
        let found = i < self.windows.len();
        proof {
            if found {
                lemma_calls_of_index(ws0, client_id@, i as int);
            } else {
                lemma_calls_of_none(ws0, client_id@);
            }
        }
        let kept = {
            let calls: &Vec<u64> = if found { &self.windows[i].1 } else { &empty };
            let ghost old_calls = calls@;
            assert(old_calls == calls_of(ws0, client_id@));
            let limit: u64 = if now >= WINDOW_MS { now - WINDOW_MS } else { 0 };
            let mut start: usize = 0;
            assert(old_calls.skip(0) == old_calls);
            while start < calls.len() && calls[start] < limit
                invariant
                    start <= calls.len(),
                    calls@ == old_calls,
                    limit == cutoff(now),
                    drop_old(old_calls, limit) == drop_old(old_calls.skip(start as int), limit),
                decreases calls.len() - start,
            {
                assert(old_calls.skip(start as int).drop_first() == old_calls.skip(start + 1));
                start += 1;
            }
            let mut kept: Vec<u64> = Vec::new();
            let mut k = start;
            while k < calls.len()
                invariant
                    start <= k <= calls.len(),
                    calls@ == old_calls,
                    kept@ == old_calls.subrange(start as int, k as int),
                decreases calls.len() - k,
            {
                kept.push(calls[k]);
                assert(old_calls.subrange(start as int, k + 1) == old_calls.subrange(start as int, k as int).push(old_calls[k as int]));
                k += 1;
            }
            assert(kept@ == old_calls.skip(start as int));
            kept
        };
        assert(kept@ == drop_old(calls_of(ws0, client_id@), cutoff(now)));
        let mut kept = kept;
        let allowed = kept.len() < MAX_CALLS_PER_MINUTE;
        if allowed {
            kept.push(now);
        }
        if found {
            let key = self.windows[i].0.clone();
            self.windows.set(i, (key, kept));
            proof {
                let e = self.windows@[i as int];
                assert(self.windows@ == ws0.update(i as int, e));
                lemma_calls_of_index(self.windows@, client_id@, i as int);
                assert forall|c: Seq<char>| c != client_id@ implies calls_of(self.windows@, c) == calls_of(ws0, c) by {
                    lemma_calls_of_update(ws0, i as int, e, c);
                }
            }
        } else {
            self.windows.push((owned(client_id), kept));
            proof {
                assert forall|c: Seq<char>| c != client_id@ implies calls_of(self.windows@, c) == calls_of(ws0, c) by {
                    lemma_calls_of_push(ws0, self.windows@.last(), c);
                }
                lemma_calls_of_push(ws0, self.windows@.last(), client_id@);
                assert(self.windows@ == ws0.push(self.windows@.last()));
            }
        }
        allowed
    }
}


/// A client's recorded calls: at most 120, in time order, none after `now`.
pub open spec fn window_ok(calls: Seq<u64>, now: u64) -> bool {
    &&& calls.len() <= 120
    &&& forall|i: int, j: int| 0 <= i < j < calls.len() ==> calls[i] <= calls[j]
    &&& forall|i: int| 0 <= i < calls.len() ==> calls[i] <= now
}

proof fn lemma_drop_old(calls: Seq<u64>, c: u64)
    ensures
        exists|k: int| 0 <= k <= calls.len() && drop_old(calls, c) == calls.skip(k),
        drop_old(calls, c).len() == 0 || drop_old(calls, c)[0] >= c,
    decreases calls.len(),
{
    if calls.len() > 0 && calls[0] < c {
        lemma_drop_old(calls.drop_first(), c);
        let k = choose|k: int| 0 <= k <= calls.drop_first().len() && drop_old(calls.drop_first(), c) == calls.drop_first().skip(k);
        assert(calls.drop_first().skip(k) == calls.skip(k + 1));
    } else {
        assert(calls.skip(0) == calls);
    }
}

/// The rate limit: a client's window stays in time order with at most 120
/// calls, all of them within the last minute, whatever call comes next; a
/// call is allowed exactly when fewer than 120 calls of the last minute remain.
pub proof fn law_rate_limit(calls: Seq<u64>, now: u64, later: u64)
    requires
        window_ok(calls, now),
        now <= later,
    ensures
        window_ok(rate_step(calls, later).1, later),
        rate_step(calls, later).0 <==> drop_old(calls, cutoff(later)).len() < 120,
        forall|i: int| 0 <= i < rate_step(calls, later).1.len() ==> #[trigger] rate_step(calls, later).1[i] >= cutoff(later),
{
    lemma_drop_old(calls, cutoff(later));
    let kept = drop_old(calls, cutoff(later));
    let k = choose|k: int| 0 <= k <= calls.len() && kept == calls.skip(k);
    assert forall|i: int| 0 <= i < kept.len() implies #[trigger] kept[i] >= cutoff(later) by {
        assert(kept[i] == calls[k + i]);
        assert(kept[0] == calls[k]);
        if i > 0 {
            assert(calls[k] <= calls[k + i]);
        }
    }
    assert forall|i: int, j: int| 0 <= i < j < kept.len() implies kept[i] <= kept[j] by {
        assert(kept[i] == calls[k + i]);
        assert(kept[j] == calls[k + j]);
    }
    assert forall|i: int| 0 <= i < kept.len() implies kept[i] <= later by {
        assert(kept[i] == calls[k + i]);
    }
    if kept.len() < 120 {
        let next = kept.push(later);
        assert forall|i: int, j: int| 0 <= i < j < next.len() implies next[i] <= next[j] by {
            if j == next.len() - 1 {
                assert(next[i] == kept[i]);
            } else {
                assert(next[i] == kept[i]);
                assert(next[j] == kept[j]);
            }
        }
        assert forall|i: int| 0 <= i < next.len() implies #[trigger] next[i] >= cutoff(later) by {
            if i < kept.len() {
                assert(next[i] == kept[i]);
            }
        }
    }
}

/// The answer to a `hello`: the client's display name and its session.
pub fn hello_response(request_id: String, session_id: String, display_name: &str) -> (r: BrokerResponse)
    ensures
        r.request_id@ == request_id@,
        r.ok,
        r.result matches Some(v) && v@ == JsonV::Object(seq![("client"@, JsonV::Str(display_name@))]),
        r.error_code is None && r.error_message is None,
        opt_view(r.session_id) == Some(session_id@),
{
    let es = vec![(owned("client"), Json::Str(owned(display_name)))];
    proof {
        lemma_entries_view(es@);
        assert(entries_view(es@) =~= seq![("client"@, JsonV::Str(display_name@))]);
    }
    BrokerResponse {
        request_id,
        ok: true,
        result: Some(Json::Object(es)),
        error_code: None,
        error_message: None,
        session_id: Some(session_id),
    }
}

/// The answer to a tool call: its result, or its error code and message;
/// either way with the session.
pub fn tool_response(request_id: String, session_id: String, result: Result<Json, ToolError>) -> (r: BrokerResponse)
    ensures
        r.request_id@ == request_id@,
        opt_view(r.session_id) == Some(session_id@),
        match result {
            Ok(v) => r.ok && r.result == Some(v) && r.error_code is None && r.error_message is None,
            Err(e) => !r.ok && r.result is None && r.error_code == Some(e.code) && r.error_message == Some(e.message),
        },
{
    match result {
        Ok(v) => BrokerResponse {
            request_id,
            ok: true,
            result: Some(v),
            error_code: None,
            error_message: None,
            session_id: Some(session_id),
        },
        Err(e) => BrokerResponse {
            request_id,
            ok: false,
            result: None,
            error_code: Some(e.code),
            error_message: Some(e.message),
            session_id: Some(session_id),
        },
    }
}

/// What the broker does with a message once it has read it.
pub enum Intake {
    /// Hand the request on.
    Dispatch(BrokerRequest),
    /// Answer at once.
    Respond(BrokerResponse),
}

/// The decision on a message read from a connection: a message over 1 MiB
/// is refused; a request that parses is handed on when the client is under
/// its rate limit and refused when it is not; one that does not parse is
/// refused with the parser's message.
pub fn intake(message_len: usize, raw_request_id: String, parsed: Result<BrokerRequest, String>, limiter: &mut RateLimiter, now: u64) -> (r: Intake)
    ensures
        message_len > MAX_MESSAGE_BYTES ==> (r matches Intake::Respond(resp) && is_error_response(resp, raw_request_id@, "INPUT_LIMIT"@, "MCP broker message exceeds 1 MiB"@) && final(limiter).windows == old(limiter).windows),
        message_len <= MAX_MESSAGE_BYTES ==> match parsed {
            Ok(req) => {
                let allowed = rate_step(calls_of(old(limiter).windows@, req.client_id@), now).0;
                &&& calls_of(final(limiter).windows@, req.client_id@) == rate_step(calls_of(old(limiter).windows@, req.client_id@), now).1
                &&& allowed ==> r == Intake::Dispatch(req)
                &&& !allowed ==> (r matches Intake::Respond(resp) && is_error_response(resp, req.request_id@, "RATE_LIMITED"@, "Too many MCP calls from this client"@))
            },
            Err(message) => r matches Intake::Respond(resp) && is_error_response(resp, raw_request_id@, "INVALID_REQUEST"@, message@) && final(limiter).windows == old(limiter).windows,
        },
{
    if message_len > MAX_MESSAGE_BYTES {
        return Intake::Respond(error_response(raw_request_id.as_str(), "INPUT_LIMIT", "MCP broker message exceeds 1 MiB"));
    }
    match parsed {
        Ok(request) => {
            if limiter.allow(request.client_id.as_str(), now) {
                Intake::Dispatch(request)
            } else {
                Intake::Respond(error_response(request.request_id.as_str(), "RATE_LIMITED", "Too many MCP calls from this client"))
            }
        },
        Err(message) => Intake::Respond(error_response(raw_request_id.as_str(), "INVALID_REQUEST", message.as_str())),
    }
}

/// What the broker does with an authenticated request.
pub enum Plan {
    /// Answer a `hello`.
    Hello,
    /// Call the named tool.
    Call(String),
    /// Refuse: a tool call must name its tool.
    MissingTool,
}

/// The plan for an authenticated request: `hello` is answered, any other
/// action calls the named tool, which it must name.
pub fn plan(action: &str, tool_name: &Option<String>) -> (r: Plan)
    ensures
        action@ == "hello"@ ==> r is Hello,
        action@ != "hello"@ ==> match tool_name {
            Some(t) => r matches Plan::Call(n) && n@ == t@,
            None => r is MissingTool,
        },
{
    if str_eq(action, "hello") {
        Plan::Hello
    } else {
        match tool_name {
            Some(t) => Plan::Call(t.clone()),
            None => Plan::MissingTool,
        }
    }
}

/// Whether a client's credentials open a session: the client must be
/// configured and enabled, and the token must hash to its stored hash.
pub open spec fn credentials_spec(client: Option<(bool, Seq<char>)>, token: Seq<char>) -> Result<(), Seq<char>> {
    match client {
        None => Err("Client is not configured"@),
        Some((enabled, token_hash)) => if !enabled || token_hash != hash_spec(token) {
            Err("Client authentication failed"@)
        } else {
            Ok(())
        },
    }
}

/// Checks a client's credentials; `client` is its enabled flag and token
/// hash, when it is configured.
pub fn check_credentials(client: Option<(bool, &str)>, token: &str) -> (r: Result<(), String>)
    ensures
        match credentials_spec(match client { Some((e, h)) => Some((e, h@)), None => None }, token@) {
            Ok(()) => r is Ok,
            Err(m) => match r {
                Err(e) => e@ == m,
                Ok(_) => false,
            },
        },
{
    match client {
        None => Err(owned("Client is not configured")),
        Some((enabled, token_hash)) => {
            if !enabled || !token_matches(token_hash, token) {
                Err(owned("Client authentication failed"))
            } else {
                Ok(())
            }
        },
    }
}

/// A session named by a request must still be open.
pub fn check_session(requested: bool, still_open: bool) -> (r: Result<(), String>)
    ensures
        (!requested || still_open) ==> r is Ok,
        (requested && !still_open) ==> (match r {
            Err(e) => e@ == "Session is no longer active"@,
            Ok(_) => false,
        }),
{
    if requested && !still_open {
        Err(owned("Session is no longer active"))
    } else {
        Ok(())
    }
}

/// The refusal of a request while the MCP server is disabled.
pub fn disabled_response(request_id: &str) -> (r: BrokerResponse)
    ensures
        is_error_response(r, request_id@, "MCP_DISABLED"@, "TesAPI MCP Server is disabled"@),
{
    error_response(request_id, "MCP_DISABLED", "TesAPI MCP Server is disabled")
}

/// Whether a request goes on to authentication: while the integration is
/// disabled, the request is refused at once, before any client is looked at.
pub fn check_enabled(request_id: &str, enabled: bool) -> (r: Option<BrokerResponse>)
    ensures
        enabled ==> r is None,
        !enabled ==> (r matches Some(resp) && is_error_response(resp, request_id@, "MCP_DISABLED"@, "TesAPI MCP Server is disabled"@)),
{
    if enabled {
        None
    } else {
        Some(disabled_response(request_id))
    }
}

/// What authentication's outcome means for a request: its session, or the
/// refusal that carries the authentication's message.
pub fn admitted(request_id: &str, outcome: Result<AuthenticatedSession, String>) -> (r: Result<AuthenticatedSession, BrokerResponse>)
    ensures
        match outcome {
            Ok(s) => r matches Ok(t) && t == s,
            Err(m) => r matches Err(resp) && is_error_response(resp, request_id@, "AUTHENTICATION_FAILED"@, m@),
        },
{
    match outcome {
        Ok(session) => Ok(session),
        Err(message) => Err(authentication_failed(request_id, message.as_str())),
    }
}

/// The refusal of a request whose client could not be authenticated.
pub fn authentication_failed(request_id: &str, message: &str) -> (r: BrokerResponse)
    ensures
        is_error_response(r, request_id@, "AUTHENTICATION_FAILED"@, message@),
{
    error_response(request_id, "AUTHENTICATION_FAILED", message)
}

/// The refusal of a tool call that names no tool.
pub fn missing_tool_response(request_id: &str) -> (r: BrokerResponse)
    ensures
        is_error_response(r, request_id@, "INVALID_REQUEST"@, "toolName is required"@),
{
    error_response(request_id, "INVALID_REQUEST", "toolName is required")
}

} // verus!
