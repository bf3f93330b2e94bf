use cha_sync::codec::{aggregate_fingerprint, encode_manifest};
use cha_sync::fingerprint::fingerprint_bytes;
use cha_sync::metadata::{ChatSessionMetadata, SyncMetadata};

fn session(id: &str, hash: &str, update_time: Option<u64>) -> ChatSessionMetadata {
    ChatSessionMetadata {
        hash: Some(hash.to_string()),
        id: id.to_string(),
        update_time,
        content: Some("never on the wire".to_string()),
    }
}

#[test]
fn encodes_the_exact_manifest_text() {
    let m = SyncMetadata {
        hash: "h".to_string(),
        last_sync: 1234,
        chat_session: vec![session("a", "ha", Some(7)), session("b", "hb", None)],
    };
    let encoded = encode_manifest(&m);
    let expected = "{\"hash\":\"h\",\"last_sync\":1234,\"chat_session\":{\"a\":{\"hash\":\"ha\",\"id\":\"a\",\"updateTime\":7},\"b\":{\"hash\":\"hb\",\"id\":\"b\"}}}";
    assert_eq!(String::from_utf8(encoded).unwrap(), expected);
}

#[test]
fn encodes_an_empty_manifest() {
    let m = SyncMetadata { hash: String::new(), last_sync: 0, chat_session: vec![] };
    assert_eq!(
        String::from_utf8(encode_manifest(&m)).unwrap(),
        "{\"hash\":\"\",\"last_sync\":0,\"chat_session\":{}}"
    );
}

#[test]
fn escapes_quotes_backslashes_and_control_characters() {
    let m = SyncMetadata {
        hash: "q\"b\\n\n".to_string(),
        last_sync: 0,
        chat_session: vec![],
    };
    assert_eq!(
        String::from_utf8(encode_manifest(&m)).unwrap(),
        "{\"hash\":\"q\\\"b\\\\n\\u000a\",\"last_sync\":0,\"chat_session\":{}}"
    );
}

#[test]
fn encoded_manifest_is_valid_json() {
    let m = SyncMetadata {
        hash: "tricky \"hash\" with \\ and \t".to_string(),
        last_sync: 42,
        chat_session: vec![session("id with \"quotes\"", "hh", Some(3))],
    };
    let encoded = encode_manifest(&m);
    let v: serde_json::Value = serde_json::from_slice(&encoded).unwrap();
    assert_eq!(v["hash"], "tricky \"hash\" with \\ and \t");
    assert_eq!(v["last_sync"], 42);
    let entry = &v["chat_session"]["id with \"quotes\""];
    assert_eq!(entry["hash"], "hh");
    assert_eq!(entry["id"], "id with \"quotes\"");
    assert_eq!(entry["updateTime"], 3);
    assert!(entry.get("content").is_none());
}

#[test]
fn aggregate_fingerprint_hashes_the_sentinel_form() {
    let sessions = vec![session("a", "ha", Some(7))];
    let expected_text =
        "{\"hash\":\"\",\"last_sync\":0,\"chat_session\":{\"a\":{\"hash\":\"ha\",\"id\":\"a\",\"updateTime\":7}}}";
    let expected = fingerprint_bytes(expected_text.as_bytes());
    assert_eq!(aggregate_fingerprint(&sessions), expected);
}
