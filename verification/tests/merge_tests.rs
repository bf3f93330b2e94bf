use cha_sync::merge::merge_session;
use cha_sync::metadata::ChatSessionMetadata;

fn record(id: &str, content: &str) -> ChatSessionMetadata {
    ChatSessionMetadata {
        hash: None,
        id: id.to_string(),
        update_time: None,
        content: Some(content.to_string()),
    }
}

#[test]
fn merge_replaces_by_id_and_preserves_others() {
    let store = vec![record("s1", "old"), record("s2", "untouched")];
    let merged = merge_session(&store, record("s1", "downloaded"));
    assert_eq!(merged.len(), 2);
    assert_eq!(merged[0].id, "s1");
    assert_eq!(merged[0].content.as_deref(), Some("downloaded"));
    assert_eq!(merged[1].id, "s2");
    assert_eq!(merged[1].content.as_deref(), Some("untouched"));
}

#[test]
fn merge_appends_a_session_not_held_yet() {
    let store = vec![record("s2", "kept")];
    let merged = merge_session(&store, record("s1", "new"));
    assert_eq!(merged.len(), 2);
    assert_eq!(merged[0].id, "s2");
    assert_eq!(merged[0].content.as_deref(), Some("kept"));
    assert_eq!(merged[1].id, "s1");
    assert_eq!(merged[1].content.as_deref(), Some("new"));
}

#[test]
fn merge_into_an_empty_store_appends() {
    let merged = merge_session(&vec![], record("s1", "first"));
    assert_eq!(merged.len(), 1);
    assert_eq!(merged[0].id, "s1");
}

#[test]
fn merge_replaces_every_duplicate_of_the_id() {
    let store = vec![record("s1", "dup-a"), record("s2", "other"), record("s1", "dup-b")];
    let merged = merge_session(&store, record("s1", "fresh"));
    assert_eq!(merged.len(), 3);
    assert_eq!(merged[0].content.as_deref(), Some("fresh"));
    assert_eq!(merged[1].content.as_deref(), Some("other"));
    assert_eq!(merged[2].content.as_deref(), Some("fresh"));
}

#[test]
fn merge_keeps_record_order() {
    let store = vec![record("a", "1"), record("b", "2"), record("c", "3")];
    let merged = merge_session(&store, record("b", "2x"));
    let ids: Vec<&str> = merged.iter().map(|r| r.id.as_str()).collect();
    assert_eq!(ids, vec!["a", "b", "c"]);
}
