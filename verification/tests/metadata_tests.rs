use cha_sync::fingerprint::fingerprint;
use cha_sync::metadata::{
    build_session_metadata, build_sync_metadata, ChatSessionMetadata, SyncMetadata,
};

fn record(id: &str, content: &str, update_time: Option<u64>) -> ChatSessionMetadata {
    ChatSessionMetadata {
        hash: None,
        id: id.to_string(),
        update_time,
        content: Some(content.to_string()),
    }
}

#[test]
fn default_manifest_is_the_absent_sentinel() {
    let m = SyncMetadata::default();
    assert_eq!(m.hash, "");
    assert_eq!(m.last_sync, 0);
    assert!(m.chat_session.is_empty());
    assert!(m.is_absent());
}

#[test]
fn built_manifest_is_never_absent() {
    let m = build_sync_metadata(&vec![], 7).unwrap();
    assert!(!m.is_absent());
    assert_eq!(m.hash.len(), 64);
    assert_eq!(m.last_sync, 7);
    assert!(m.chat_session.is_empty());
}

#[test]
fn builder_fingerprints_each_record() {
    let recs = vec![record("a", "x", Some(1)), record("b", "y", None)];
    let list = build_session_metadata(&recs).unwrap();
    assert_eq!(list.len(), 2);
    assert_eq!(list[0].id, "a");
    assert_eq!(list[0].hash.as_deref(), Some(fingerprint("x").as_str()));
    assert_eq!(list[0].update_time, Some(1));
    assert_eq!(list[1].id, "b");
    assert_eq!(list[1].hash.as_deref(), Some(fingerprint("y").as_str()));
    assert_eq!(list[1].update_time, None);
}

#[test]
fn builder_sorts_by_id_and_keeps_the_last_record_per_id() {
    let recs = vec![
        record("zz", "1", None),
        record("aa", "old", Some(1)),
        record("mm", "2", None),
        record("aa", "new", Some(9)),
    ];
    let list = build_session_metadata(&recs).unwrap();
    let ids: Vec<&str> = list.iter().map(|s| s.id.as_str()).collect();
    assert_eq!(ids, vec!["aa", "mm", "zz"]);
    assert_eq!(list[0].content.as_deref(), Some("new"));
    assert_eq!(list[0].update_time, Some(9));
    assert_eq!(list[0].hash.as_deref(), Some(fingerprint("new").as_str()));
}

#[test]
fn builder_rejects_a_record_without_content() {
    let recs = vec![
        record("a", "x", None),
        ChatSessionMetadata { hash: None, id: "b".to_string(), update_time: None, content: None },
    ];
    let err = build_session_metadata(&recs).unwrap_err();
    assert_eq!(err, "Missing session content");
    assert_eq!(build_sync_metadata(&recs, 0).unwrap_err(), "Missing session content");
}

#[test]
fn aggregate_fingerprint_is_order_independent() {
    let one = vec![record("a", "x", Some(1)), record("b", "y", Some(2))];
    let two = vec![record("b", "y", Some(2)), record("a", "x", Some(1))];
    let m1 = build_sync_metadata(&one, 11).unwrap();
    let m2 = build_sync_metadata(&two, 99).unwrap();
    assert_eq!(m1.hash, m2.hash);
}

#[test]
fn aggregate_fingerprint_changes_with_content() {
    let one = vec![record("a", "x", Some(1))];
    let two = vec![record("a", "x2", Some(1))];
    let m1 = build_sync_metadata(&one, 0).unwrap();
    let m2 = build_sync_metadata(&two, 0).unwrap();
    assert_ne!(m1.hash, m2.hash);
}

#[test]
fn aggregate_fingerprint_ignores_build_time() {
    let recs = vec![record("a", "x", Some(1))];
    let m1 = build_sync_metadata(&recs, 1).unwrap();
    let m2 = build_sync_metadata(&recs, 2).unwrap();
    assert_eq!(m1.hash, m2.hash);
    assert_ne!(m1.last_sync, m2.last_sync);
}
