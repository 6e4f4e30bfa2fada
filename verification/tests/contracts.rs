use tesapi::broker::{admitted, check_enabled};
use tesapi::cloud::uuid_of_bytes;
use tesapi::config::codex::{self, server_entries, snippet_entries, TomlValue};
use tesapi::config::{client_kinds, is_supported_kind};
use tesapi::http_path::encode_segment;
use tesapi::json::{parse_json_text, Json};
use tesapi::workspace::collections::search_add;
use tesapi::types::{AuthenticatedSession, Capability, McpClient};

#[test]
fn uuid_text_sets_version_and_variant_bits() {
    let bytes: Vec<u8> = (0u8..16).map(|i| 0xf0 | i).collect();
    assert_eq!(uuid_of_bytes(&bytes), "f0f1f2f3-f4f5-46f7-b8f9-fafbfcfdfeff");
    assert_eq!(uuid_of_bytes(&[0u8; 16]), "00000000-0000-4000-8000-000000000000");
}

#[test]
fn codex_server_entries_name_command_args_and_management() {
    let args = vec!["--client-id".to_string(), "x".to_string()];
    let entries = server_entries("tesapi-mcp", &args);
    let keys: Vec<&str> = entries.iter().map(|(k, _)| k.as_str()).collect();
    assert_eq!(keys, vec!["command", "args", "tesapi_managed"]);
    assert!(matches!(&entries[0].1, TomlValue::Text(c) if c == "tesapi-mcp"));
    assert!(matches!(&entries[1].1, TomlValue::Texts(a) if *a == args));
    assert!(matches!(&entries[2].1, TomlValue::Flag(true)));
    let snippet = snippet_entries("tesapi-mcp", &args);
    assert_eq!(snippet.len(), 2);
    let text = codex::snippet("tesapi-mcp", &args);
    assert!(text.contains("command = \"tesapi-mcp\""), "{text}");
    assert!(!text.contains("tesapi_managed"), "{text}");
}

#[test]
fn codex_patch_creates_the_server_table_and_refuses_an_unusable_one() {
    let patched = codex::patch_config("model = \"gpt-5\"\n", "tesapi-mcp", &["--endpoint".to_string()]).unwrap().unwrap();
    assert!(patched.contains("[mcp_servers.tesapi]"), "{patched}");
    assert!(patched.contains("tesapi_managed = true"), "{patched}");
    assert!(codex::patch_config("mcp_servers = 5\n", "tesapi-mcp", &[]).is_none());
    assert!(codex::patch_config("[[[", "tesapi-mcp", &[]).unwrap().is_err());
}

#[test]
fn every_client_kind_is_supported_and_nothing_else() {
    let kinds: Vec<&str> = client_kinds().iter().map(|k| k.kind).collect();
    assert_eq!(kinds, vec!["codex", "cursor", "manual"]);
    for kind in &kinds {
        assert!(is_supported_kind(kind));
    }
    assert!(!is_supported_kind("other"));
}

#[test]
fn a_disabled_integration_answers_before_authentication() {
    let refusal = check_enabled("r1", false).expect("a refusal");
    assert_eq!(refusal.error_code.as_deref(), Some("MCP_DISABLED"));
    assert!(check_enabled("r1", true).is_none());
    let failed = admitted("r2", Err("Client is not configured".into())).unwrap_err();
    assert_eq!(failed.error_message.as_deref(), Some("Client is not configured"));
    let client = McpClient {
        id: "c".into(),
        kind: "codex".into(),
        display_name: "Codex".into(),
        config_path: None,
        enabled: true,
        capability: Capability::Read,
        installed_at: None,
        last_seen_at: None,
    };
    let session = admitted("r3", Ok(AuthenticatedSession { id: "s".into(), client })).unwrap();
    assert_eq!(session.id, "s");
}

#[test]
fn encoding_keeps_unreserved_text_and_round_trips() {
    assert_eq!(encode_segment("Az09-._~"), "Az09-._~");
    let encoded = encode_segment("a b/✓");
    assert_eq!(encoded, "a%20b%2F%E2%9C%93");
    let mut decoded = Vec::new();
    let bytes = encoded.as_bytes();
    let mut i = 0;
    while i < bytes.len() {
        if bytes[i] == b'%' {
            decoded.push(u8::from_str_radix(&encoded[i + 1..i + 3], 16).unwrap());
            i += 3;
        } else {
            decoded.push(bytes[i]);
            i += 1;
        }
    }
    assert_eq!(decoded, "a b/✓".as_bytes());
}

#[test]
fn encoded_segments_hold_only_unreserved_characters_and_escapes() {
    let encoded = encode_segment("päth /?#%");
    let bytes = encoded.as_bytes();
    let mut i = 0;
    while i < bytes.len() {
        let b = bytes[i];
        if b == b'%' {
            assert!(bytes[i + 1..i + 3].iter().all(|h| h.is_ascii_digit() || (b'A'..=b'F').contains(h)), "{encoded}");
            i += 3;
        } else {
            assert!(b.is_ascii_alphanumeric() || b"-._~".contains(&b), "{encoded}");
            i += 1;
        }
    }
    assert_eq!(encoded, "p%C3%A4th%20%2F%3F%23%25");
}

#[test]
fn a_search_stops_when_a_match_reaches_the_limit() {
    let doc = |text: &str| -> Json { parse_json_text(text).expect("JSON") };
    let hit = doc(r#"{"name":"Users","request":{"method":"GET","url":"https://x/users"}}"#);
    let miss = doc(r#"{"name":"Orders","request":{"method":"GET","url":"https://x/orders"}}"#);
    let mut results = Vec::new();
    assert!(search_add(&mut results, "c", "r0", "", &miss, "users", 1));
    assert!(results.is_empty());
    assert!(!search_add(&mut results, "c", "r1", "", &hit, "users", 1));
    assert_eq!(results.len(), 1);
    assert_eq!(results[0].get_str("requestId").map(String::as_str), Some("r1"));
    let mut none = Vec::new();
    assert!(search_add(&mut none, "c", "r0", "", &miss, "users", 0));
}
