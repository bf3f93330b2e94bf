use cha_sync::fingerprint::{fingerprint, fingerprint_bytes};
use sha2::Digest;

#[test]
fn fingerprint_matches_known_sha256_vector() {
    // SHA-256("abc"), a published test vector.
    assert_eq!(
        fingerprint("abc"),
        "ba7816bf8f01cfea414140de5dae2223b00361a396177a9cb410ff61f20015ad"
    );
}

#[test]
fn fingerprint_of_empty_input() {
    assert_eq!(
        fingerprint(""),
        "e3b0c44298fc1c149afbf4c8996fb92427ae41e4649b934ca495991b7852b855"
    );
}

#[test]
fn fingerprint_is_deterministic_across_calls() {
    let a = fingerprint("{\"id\":\"s1\",\"title\":\"hello\"}");
    let b = fingerprint("{\"id\":\"s1\",\"title\":\"hello\"}");
    assert_eq!(a, b);
    assert_eq!(a.len(), 64);
}

#[test]
fn single_byte_change_changes_fingerprint() {
    let a = fingerprint("abc");
    let b = fingerprint("abd");
    assert_ne!(a, b);
}

#[test]
fn fingerprint_agrees_with_sha2_and_hex_directly() {
    let input = b"some session content";
    let expected = hex::encode(sha2::Sha256::digest(input));
    assert_eq!(fingerprint_bytes(input), expected);
    assert_eq!(fingerprint("some session content"), expected);
}

#[test]
fn fingerprint_bytes_handles_non_ascii() {
    let text = "caf\u{e9} \u{1F600}";
    let expected = hex::encode(sha2::Sha256::digest(text.as_bytes()));
    assert_eq!(fingerprint(text), expected);
}
