use vstd::prelude::*;

use crate::json::{entries_view, field, field_array, field_str, lemma_entries_view, Json, JsonNumber, JsonV, NumberV};
use crate::security::{hex, hex_spec};
use crate::text::{from_chars, owned, push_chars, push_str_chars, str_eq, to_chars, trim, trim_spec, utf8_len};
use crate::url::{parse_url, url_parse, UrlInfoV};

verus! {

/// Whether a workspace is connected to TesAPI Cloud, and to what.
#[derive(Debug)]
pub struct CloudStatus {
    pub connected: bool,
    pub base_url: Option<String>,
    pub workspace_id: Option<String>,
    pub device_id: Option<String>,
    pub role: Option<String>,
    pub cursor: Option<String>,
}

/// The hosts for which plain HTTP is allowed: local development.
pub open spec fn is_local_host(host: Seq<char>) -> bool {
    host == "localhost"@ || host == "127.0.0.1"@ || host == "::1"@
}

/// The enrollment secret in a fragment `enrollment=<secret>`, when not empty.
pub open spec fn enrollment_token(fragment: Option<Seq<char>>) -> Option<Seq<char>> {
    match fragment {
        Some(f) => {
            let p = "enrollment="@;
            if f.len() > p.len() && f.take(p.len() as int) == p {
                Some(f.skip(p.len() as int))
            } else {
                None
            }
        },
        None => None,
    }
}

/// What `parse_connection` returns for a connection URL: its origin and
/// enrollment secret, or the reason it is refused.
pub open spec fn parse_connection_spec(value: Seq<char>) -> Result<(Seq<char>, Seq<char>), Seq<char>> {
    match url_parse(trim_spec(value)) {
        None => Err("Connection URL is invalid."@),
        Some(u) => match u.host {
            None => Err("Connection URL host is required."@),
            Some(h) => if u.scheme != "https"@ && !(u.scheme == "http"@ && is_local_host(h)) {
                Err("Cloud connections require HTTPS. HTTP is allowed only for localhost development."@)
            } else {
                match enrollment_token(u.fragment) {
                    Some(t) => Ok((u.origin, t)),
                    None => Err("Connection URL is missing its enrollment secret."@),
                }
            },
        },
    }
}

/// Reads a cloud connection URL: an HTTPS URL (or HTTP on localhost) whose
/// fragment carries `enrollment=<secret>`; gives its origin and the secret.
pub fn parse_connection(value: &str) -> (r: Result<(String, String), String>)
    ensures
        match r {
            Ok((origin, token)) => parse_connection_spec(value@) == Ok::<(Seq<char>, Seq<char>), Seq<char>>((origin@, token@)),
            Err(e) => parse_connection_spec(value@) == Err::<(Seq<char>, Seq<char>), Seq<char>>(e@),
        },
{
    proof {
        reveal_strlit("enrollment=");
    }
    let trimmed = trim(value);
    let url = match parse_url(trimmed.as_str()) {
        Some(u) => u,
        None => return Err(owned("Connection URL is invalid.")),
    };
    let host = match &url.host {
        Some(h) => h,
        None => return Err(owned("Connection URL host is required.")),
    };
    let local = str_eq(host.as_str(), "localhost") || str_eq(host.as_str(), "127.0.0.1") || str_eq(host.as_str(), "::1");
    let https = str_eq(url.scheme.as_str(), "https");
    let http = str_eq(url.scheme.as_str(), "http");
    if !https && !(http && local) {
        return Err(owned("Cloud connections require HTTPS. HTTP is allowed only for localhost development."));
    }
    let fragment = match &url.fragment {
        Some(f) => to_chars(f.as_str()),
        None => return Err(owned("Connection URL is missing its enrollment secret.")),
    };
    let prefix = to_chars("enrollment=");
    let n = prefix.len();
    if fragment.len() <= n || !crate::text::matches_at(fragment.as_slice(), 0, prefix.as_slice()) {
        proof {
            if fragment@.len() > n {
                assert(fragment@.subrange(0, n as int) == fragment@.take(n as int));
            }
        }
        return Err(owned("Connection URL is missing its enrollment secret."));
    }
    assert(fragment@.subrange(0, n as int) == fragment@.take(n as int));
    let token = crate::text::sub_chars(fragment.as_slice(), n, fragment.len());
    assert(token@ == fragment@.skip(n as int));
    Ok((url.origin.clone(), from_chars(token.as_slice())))
}

/// The device name given at enrollment, trimmed; it must have 1 to 120 bytes.
pub fn check_device_name(name: &str) -> (r: Result<String, String>)
    ensures
        match r {
            Ok(n) => n@ == trim_spec(name@) && 1 <= utf8_len(trim_spec(name@)) <= 120,
            Err(e) => !(1 <= utf8_len(trim_spec(name@)) <= 120) && e@ == "Device name must be between 1 and 120 characters."@,
        },
{
    let t = trim(name);
    let cs = to_chars(t.as_str());
    let (_, too_long) = crate::text::prefix_within(cs.as_slice(), 120);
    proof {
        if cs.len() > 0 {
            crate::text::lemma_utf8_len_first(cs@);
        } else {
            assert(vstd::utf8::encode_utf8(cs@).len() == 0);
        }
    }
    if cs.len() == 0 || too_long {
        return Err(owned("Device name must be between 1 and 120 characters."));
    }
    Ok(t)
}

/// The 36-character text of a UUID's 16 bytes: lowercase hexadecimal in
/// groups of 8, 4, 4, 4 and 12 digits separated by `-`.
pub open spec fn uuid_text(b: Seq<u8>) -> Seq<char> {
    hex_spec(b.subrange(0, 4)) + seq!['-'] + hex_spec(b.subrange(4, 6)) + seq!['-'] + hex_spec(b.subrange(6, 8)) + seq!['-']
        + hex_spec(b.subrange(8, 10)) + seq!['-'] + hex_spec(b.subrange(10, 16))
}

/// The bytes of a version 4, variant 1 UUID: byte 6 starts with `4` and
/// byte 8 with binary `10`.
pub open spec fn is_uuid_v4_bytes(b: Seq<u8>) -> bool {
    b.len() == 16 && b[6] / 16 == 4 && b[8] / 64 == 2
}

/// The bytes with the UUID version (4) and variant (binary `10`) bits set.
pub open spec fn v4_bits(b: Seq<u8>) -> Seq<u8> {
    b.update(6, (b[6] & 0x0f) | 0x40).update(8, (b[8] & 0x3f) | 0x80)
}

/// The text of the version 4 UUID made of 16 bytes: the version and
/// variant bits set, then lowercase hexadecimal in groups.
pub fn uuid_of_bytes(b: &[u8]) -> (r: String)
    requires
        b@.len() == 16,
    ensures
        r@ == uuid_text(v4_bits(b@)),
        is_uuid_v4_bytes(v4_bits(b@)),
{
    let mut bytes: Vec<u8> = Vec::new();
    let mut i: usize = 0;
    while i < b.len()
        invariant
            i <= b.len(),
            bytes@ == b@.take(i as int),
        decreases b.len() - i,
    {
        bytes.push(b[i]);
        i += 1;
    }
    assert(bytes@ == b@);
    let x6 = bytes[6];
    let x8 = bytes[8];
    let b6 = (x6 & 0x0f) | 0x40;
    let b8 = (x8 & 0x3f) | 0x80;
    assert(b6 / 16 == 4) by (bit_vector)
        requires
            b6 == (x6 & 0x0f) | 0x40;
    assert(b8 / 64 == 2) by (bit_vector)
        requires
            b8 == (x8 & 0x3f) | 0x80;
    bytes.set(6, b6);
    bytes.set(8, b8);
    let ghost v = bytes@;
    assert(v == v4_bits(b@));
    let mut out: Vec<char> = Vec::new();
    let groups: [(usize, usize); 5] = [(0, 4), (4, 6), (6, 8), (8, 10), (10, 16)];
    let mut g: usize = 0;
    while g < 5
        invariant
            g <= 5,
            bytes@ == v,
            v.len() == 16,
            groups@ == seq![(0usize, 4usize), (4usize, 6usize), (6usize, 8usize), (8usize, 10usize), (10usize, 16usize)],
            out@ == uuid_prefix(v, g as int),
        decreases 5 - g,
    {
        let (from, to) = groups[g];
        if g > 0 {
            out.push('-');
        }
        let part = crate::security::hex(vstd::slice::slice_subrange(bytes.as_slice(), from, to));
        push_str_chars(&mut out, part.as_str());
        g += 1;
    }
    proof {
        reveal_with_fuel(uuid_prefix, 6);
    }
    assert(out@ == uuid_text(v));
    from_chars(out.as_slice())
}

/// A random version 4 UUID: 16 random bytes made into a UUID's text.
pub fn uuid_v4() -> (r: Result<String, String>)
    ensures
        r matches Ok(t) ==> exists|b: Seq<u8>| b.len() == 16 && t@ == uuid_text(v4_bits(b)),
{
    let bytes = crate::security::random_bytes(16)?;
    Ok(uuid_of_bytes(bytes.as_slice()))
}

/// The first `g` groups of a UUID's text, joined by `-`.
pub open spec fn uuid_prefix(b: Seq<u8>, g: int) -> Seq<char>
    decreases g,
{
    if g <= 0 {
        seq![]
    } else if g == 1 {
        hex_spec(b.subrange(0, 4))
    } else if g == 2 {
        uuid_prefix(b, 1) + seq!['-'] + hex_spec(b.subrange(4, 6))
    } else if g == 3 {
        uuid_prefix(b, 2) + seq!['-'] + hex_spec(b.subrange(6, 8))
    } else if g == 4 {
        uuid_prefix(b, 3) + seq!['-'] + hex_spec(b.subrange(8, 10))
    } else {
        uuid_prefix(b, 4) + seq!['-'] + hex_spec(b.subrange(10, 16))
    }
}

/// A revision may only be recorded for a named entity and a positive revision.
pub fn check_revision(entity_id: &str, revision: i64) -> (r: Result<(), String>)
    ensures
        r is Ok <==> (trim_spec(entity_id@).len() > 0 && revision >= 1),
        r matches Err(e) ==> e@ == "Cloud entity ID and positive revision are required."@,
{
    let t = trim(entity_id);
    if t.as_str().is_empty() || revision < 1 {
        return Err(owned("Cloud entity ID and positive revision are required."));
    }
    Ok(())
}

/// The operation of a pushed collection: `delete` without a payload,
/// `create` for a collection the cloud has never seen, `update` otherwise.
pub open spec fn operation_spec(has_payload: bool, base_revision: i64) -> Seq<char> {
    if !has_payload {
        "delete"@
    } else if base_revision == 0 {
        "create"@
    } else {
        "update"@
    }
}

/// The operation of a pushed collection.
pub fn mutation_operation(has_payload: bool, base_revision: i64) -> (r: &'static str)
    ensures
        r@ == operation_spec(has_payload, base_revision),
{
    if !has_payload {
        "delete"
    } else if base_revision == 0 {
        "create"
    } else {
        "update"
    }
}

/// The mutation that pushes (or deletes) a collection.
pub open spec fn mutation_spec(mutation_id: Seq<char>, collection_id: Seq<char>, base_revision: i64, payload: Option<JsonV>) -> JsonV {
    let es = seq![
        ("baseRevision"@, JsonV::Number(if base_revision >= 0 { NumberV::PosInt(base_revision as u64) } else { NumberV::NegInt(base_revision) })),
        ("entityId"@, JsonV::Str(collection_id)),
        ("entityType"@, JsonV::Str("collection"@)),
        ("mutationId"@, JsonV::Str(mutation_id)),
        ("operation"@, JsonV::Str(operation_spec(payload is Some, base_revision))),
    ];
    match payload {
        Some(p) => JsonV::Object(es.push(("payload"@, p)).push(("schemaVersion"@, JsonV::Number(NumberV::PosInt(1))))),
        None => JsonV::Object(es.push(("schemaVersion"@, JsonV::Number(NumberV::PosInt(1))))),
    }
}

/// The mutation document sent to the cloud for one collection.
pub fn mutation(mutation_id: &str, collection_id: &str, base_revision: i64, payload: Option<Json>) -> (r: Json)
    ensures
        r@ == mutation_spec(mutation_id@, collection_id@, base_revision, crate::json::opt_owned_json_view(payload)),
{
    let has_payload = payload.is_some();
    let number = if base_revision >= 0 {
        JsonNumber::PosInt(base_revision as u64)
    } else {
        JsonNumber::NegInt(base_revision)
    };
    let ghost pv = crate::json::opt_owned_json_view(payload);
    let mut es = vec![
        (owned("baseRevision"), Json::Number(number)),
        (owned("entityId"), Json::Str(owned(collection_id))),
        (owned("entityType"), Json::Str(owned("collection"))),
        (owned("mutationId"), Json::Str(owned(mutation_id))),
        (owned("operation"), Json::Str(owned(mutation_operation(has_payload, base_revision)))),
    ];
    match payload {
        Some(p) => es.push((owned("payload"), p)),
        None => {},
    }
    es.push((owned("schemaVersion"), Json::Number(JsonNumber::PosInt(1))));
    proof {
        lemma_entries_view(es@);
        assert(entries_view(es@) =~= match mutation_spec(mutation_id@, collection_id@, base_revision, pv) {
            JsonV::Object(x) => x,
            _ => seq![],
        });
    }
    Json::Object(es)
}

/// What a push response's status means: a conflict, a refusal, or success.
pub open spec fn push_status_spec(status: u16) -> Result<(), Seq<char>> {
    if status == 409 {
        Err("Cloud revision conflict. Pull the workspace and review the remote collection."@)
    } else if !(200 <= status && status <= 299) {
        Err("Cloud push was rejected by the server."@)
    } else {
        Ok(())
    }
}

/// Reads the status of a push response.
pub fn push_status(status: u16) -> (r: Result<(), String>)
    ensures
        match r {
            Ok(()) => push_status_spec(status) is Ok,
            Err(e) => push_status_spec(status) == Err::<(), Seq<char>>(e@),
        },
{
    if status == 409 {
        Err(owned("Cloud revision conflict. Pull the workspace and review the remote collection."))
    } else if !(200 <= status && status <= 299) {
        Err(owned("Cloud push was rejected by the server."))
    } else {
        Ok(())
    }
}

/// `Value::as_i64`: an integral number that fits in an `i64`.
pub open spec fn as_i64_v(v: JsonV) -> Option<i64> {
    match v {
        JsonV::Number(NumberV::PosInt(u)) => if u <= i64::MAX { Some(u as i64) } else { None },
        JsonV::Number(NumberV::NegInt(i)) => Some(i),
        _ => None,
    }
}

/// The revision that the cloud gave the first mutation of a push.
pub open spec fn pushed_revision(body: JsonV) -> Option<i64> {
    match field_array(body, "results"@) {
        Some(rows) => if rows.len() > 0 {
            match field(rows[0], "revision"@) {
                Some(r) => as_i64_v(r),
                None => None,
            }
        } else {
            None
        },
        None => None,
    }
}

/// Reads the new revision from a push response.
pub fn revision_of(body: &Json) -> (r: Result<i64, String>)
    ensures
        match r {
            Ok(v) => pushed_revision(body@) == Some(v),
            Err(e) => pushed_revision(body@) is None && e@ == "Cloud response did not include a revision."@,
        },
{
    let rows = match body.get_array("results") {
        Some(r) => r,
        None => return Err(owned("Cloud response did not include a revision.")),
    };
    proof {
        crate::json::lemma_items_view(rows@);
    }
    if rows.len() == 0 {
        return Err(owned("Cloud response did not include a revision."));
    }
    match rows[0].get("revision") {
        Some(Json::Number(JsonNumber::PosInt(u))) => if *u <= 9223372036854775807u64 {
            Ok(*u as i64)
        } else {
            Err(owned("Cloud response did not include a revision."))
        },
        Some(Json::Number(JsonNumber::NegInt(i))) => Ok(*i),
        _ => Err(owned("Cloud response did not include a revision.")),
    }
}

/// The status of a workspace that is not connected.
pub fn disconnected() -> (r: CloudStatus)
    ensures
        !r.connected && r.base_url is None && r.workspace_id is None && r.device_id is None && r.role is None
            && r.cursor is None,
{
    CloudStatus { connected: false, base_url: None, workspace_id: None, device_id: None, role: None, cursor: None }
}

/// The status of a connected workspace, from its stored connection.
pub fn connected(base_url: String, workspace_id: String, device_id: String, role: String, cursor: String) -> (r: CloudStatus)
    ensures
        r.connected,
        r.base_url == Some(base_url),
        r.workspace_id == Some(workspace_id),
        r.device_id == Some(device_id),
        r.role == Some(role),
        r.cursor == Some(cursor),
{
    CloudStatus {
        connected: true,
        base_url: Some(base_url),
        workspace_id: Some(workspace_id),
        device_id: Some(device_id),
        role: Some(role),
        cursor: Some(cursor),
    }
}

} // verus!
