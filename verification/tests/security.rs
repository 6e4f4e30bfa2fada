use tesapi::json::{json_to_string, parse_json_text};
use tesapi::security::{
    any_private, canonical, fingerprint, hash, hex, is_private_ip, is_sensitive_name, new_id,
    random_token, token_matches, IpAddress,
};

#[test]
fn canonical_should_sort_object_keys_recursively() {
    let value = parse_json_text(r#"{"z": {"b": 2, "a": 1}, "a": 0}"#).unwrap();
    assert_eq!(
        json_to_string(&canonical(&value)),
        r#"{"a":0,"z":{"a":1,"b":2}}"#
    );
}

#[test]
fn token_matches_should_reject_different_token() {
    assert!(!token_matches(&hash("expected"), "different"));
}

#[test]
fn token_matches_accepts_the_hashed_token() {
    assert!(token_matches(&hash("expected"), "expected"));
    assert!(!token_matches("short", "expected"));
}

#[test]
fn hash_is_lowercase_sha256_hex() {
    assert_eq!(
        hash("abc"),
        "ba7816bf8f01cfea414140de5dae2223b00361a396177a9cb410ff61f20015ad"
    );
    assert_eq!(hex(&[0, 15, 255]), "000fff");
}

#[test]
fn is_private_ip_should_block_metadata_service() {
    assert!(is_private_ip(IpAddress::V4([169, 254, 169, 254])));
}

#[test]
fn private_ranges_are_recognised() {
    assert!(is_private_ip(IpAddress::V4([10, 1, 2, 3])));
    assert!(is_private_ip(IpAddress::V4([172, 31, 0, 1])));
    assert!(!is_private_ip(IpAddress::V4([172, 32, 0, 1])));
    assert!(is_private_ip(IpAddress::V4([192, 168, 1, 1])));
    assert!(is_private_ip(IpAddress::V4([127, 0, 0, 1])));
    assert!(is_private_ip(IpAddress::V4([0, 0, 0, 0])));
    assert!(!is_private_ip(IpAddress::V4([8, 8, 8, 8])));
    assert!(is_private_ip(IpAddress::V6([0, 0, 0, 0, 0, 0, 0, 1])));
    assert!(is_private_ip(IpAddress::V6([0xfd12, 0, 0, 0, 0, 0, 0, 1])));
    assert!(is_private_ip(IpAddress::V6([0xfe80, 0, 0, 0, 0, 0, 0, 1])));
    assert!(!is_private_ip(IpAddress::V6([0x2001, 0xdb8, 0, 0, 0, 0, 0, 1])));
    assert!(any_private(&[IpAddress::V4([8, 8, 8, 8]), IpAddress::V4([10, 0, 0, 1])]));
    assert!(!any_private(&[]));
}

#[test]
fn fingerprint_ignores_key_order() {
    let a = parse_json_text(r#"{"x":1,"y":[{"b":1,"a":2}]}"#).unwrap();
    let b = parse_json_text(r#"{"y":[{"a":2,"b":1}],"x":1}"#).unwrap();
    assert_eq!(fingerprint(&a), fingerprint(&b));
}

#[test]
fn random_values_have_the_documented_shape() {
    let token = random_token().unwrap();
    assert_eq!(token.len(), 64);
    assert!(token.chars().all(|c| c.is_ascii_hexdigit()));
    let id = new_id("draft").unwrap();
    assert!(id.starts_with("draft-"));
    assert_eq!(id.len(), "draft-".len() + 24);
}

#[test]
fn sensitive_name_suffixes_match() {
    assert!(is_sensitive_name("x_session"));
    assert!(is_sensitive_name("Set-Cookie"));
    assert!(!is_sensitive_name("sessions"));
}
