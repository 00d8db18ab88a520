use listshare::scopes::{decode_scopes, encode_scopes};

#[test]
fn test_scopes_round_trip() {
    let scopes = vec!["read".to_string(), "write".to_string(), "admin".to_string()];
    let stored = encode_scopes(&scopes);
    assert_eq!(stored, "read,write,admin");
    let decoded = decode_scopes(&stored);
    assert_eq!(decoded, scopes);
}

#[test]
fn test_single_scope_round_trip() {
    let scopes = vec!["read".to_string()];
    let stored = encode_scopes(&scopes);
    assert_eq!(stored, "read");
    assert_eq!(decode_scopes(&stored), scopes);
}

#[test]
fn test_empty_storage_decodes_to_empty_list() {
    let decoded = decode_scopes("");
    assert!(decoded.is_empty());
}

#[test]
fn test_decode_trims_pieces() {
    let decoded = decode_scopes(" read , write ");
    assert_eq!(decoded, vec!["read".to_string(), "write".to_string()]);
}

#[test]
fn test_decode_keeps_empty_pieces_between_commas() {
    let decoded = decode_scopes("a,,b");
    assert_eq!(decoded, vec!["a".to_string(), "".to_string(), "b".to_string()]);
}
