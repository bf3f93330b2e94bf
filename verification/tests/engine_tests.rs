use cha_sync::engine::{SyncAction, SyncEvent, SyncState, Synchronize};
use cha_sync::fingerprint::fingerprint;
use cha_sync::metadata::{ChatSessionMetadata, SyncMetadata};
use cha_sync::settings::{
    DropboxConfig, ProvidersConfig, Settings, SyncDataType, SyncProvider, SynchronizedConfig,
};

fn settings_with_token(token: Option<&str>) -> Settings {
    Settings {
        show_word_count: None,
        show_token_count: None,
        show_token_used: None,
        show_model_name: None,
        show_message_timestamp: None,
        language_inited: None,
        font_size: None,
        spell_check: None,
        default_prompt: None,
        proxy: None,
        allow_reporting_and_tracking: false,
        user_avatar_key: None,
        enable_markdown_rendering: true,
        auto_generate_title: true,
        sync_config: SynchronizedConfig {
            provider: SyncProvider::Dropbox,
            providers_config: token.map(|t| ProvidersConfig {
                dropbox: DropboxConfig {
                    client_id: None,
                    client_secret: None,
                    auth_token: None,
                    refresh_token: Some(t.to_string()),
                },
            }),
            frequency: 300,
            on_app_launch: false,
            sync_data_type: vec![SyncDataType::Chat],
        },
    }
}

fn record(id: &str, content: &str, update_time: Option<u64>) -> ChatSessionMetadata {
    ChatSessionMetadata {
        hash: None,
        id: id.to_string(),
        update_time,
        content: Some(content.to_string()),
    }
}

/// Drive a run up to the manifest fetch, returning the state awaiting
/// the remote manifest.
fn drive_to_manifest(sync: &Synchronize, records: Vec<ChatSessionMetadata>) -> SyncState {
    let (s, a) = sync.step(SyncState::Idle, SyncEvent::Started);
    assert!(matches!(a, SyncAction::AcquireLock));
    let (s, a) = sync.step(s, SyncEvent::LockAcquired);
    assert!(matches!(a, SyncAction::LoadSettings));
    let (s, a) = sync.step(
        s,
        SyncEvent::SettingsLoaded(Some(settings_with_token(Some("refresh-me")))),
    );
    match &a {
        SyncAction::ExchangeToken { refresh_token } => assert_eq!(refresh_token, "refresh-me"),
        other => panic!("expected token exchange, got {:?}", other),
    }
    let (s, a) = sync.step(s, SyncEvent::TokenExchanged(Ok("access".to_string())));
    assert!(matches!(a, SyncAction::CheckAuth));
    let (s, a) = sync.step(s, SyncEvent::AuthChecked(Ok(())));
    assert!(matches!(a, SyncAction::ReadLocalRecords));
    let (s, a) = sync.step(s, SyncEvent::LocalRecords(records));
    match &a {
        SyncAction::FetchManifest { path } => {
            assert_eq!(path, "/Apps/Cha/sync_metadata.json")
        },
        other => panic!("expected manifest fetch, got {:?}", other),
    }
    s
}

#[test]
fn first_sync_uploads_every_session_and_the_manifest() {
    let sync = Synchronize::new("/Apps/Cha".to_string());
    let records = vec![record("a", "x", Some(1)), record("b", "y", Some(2))];
    let s = drive_to_manifest(&sync, records);

    // Remote manifest absent: every session body goes up, then the
    // manifest, then the run finishes without a reload.
    let (s, a) = sync.step(s, SyncEvent::ManifestFetched(None));
    match &a {
        SyncAction::UploadBytes { path, bytes } => {
            assert_eq!(path, "/Apps/Cha/chat_sessions/a.json");
            assert_eq!(bytes, b"x");
        },
        other => panic!("expected session upload, got {:?}", other),
    }
    let (s, a) = sync.step(s, SyncEvent::Uploaded(Ok(())));
    match &a {
        SyncAction::UploadBytes { path, bytes } => {
            assert_eq!(path, "/Apps/Cha/chat_sessions/b.json");
            assert_eq!(bytes, b"y");
        },
        other => panic!("expected session upload, got {:?}", other),
    }
    let (s, a) = sync.step(s, SyncEvent::Uploaded(Ok(())));
    let manifest_bytes = match &a {
        SyncAction::UploadBytes { path, bytes } => {
            assert_eq!(path, "/Apps/Cha/sync_metadata.json");
            bytes.clone()
        },
        other => panic!("expected manifest upload, got {:?}", other),
    };
    let v: serde_json::Value = serde_json::from_slice(&manifest_bytes).unwrap();
    assert_eq!(v["chat_session"]["a"]["hash"], fingerprint("x").as_str());
    assert_eq!(v["chat_session"]["b"]["hash"], fingerprint("y").as_str());

    let (s, a) = sync.step(s, SyncEvent::Uploaded(Ok(())));
    assert!(matches!(a, SyncAction::Finish { require_reload: false }));
    assert!(matches!(s, SyncState::Finished { require_reload: false }));
}

#[test]
fn first_sync_with_no_sessions_uploads_only_the_manifest() {
    let sync = Synchronize::new("/Apps/Cha".to_string());
    let s = drive_to_manifest(&sync, vec![]);
    let (s, a) = sync.step(s, SyncEvent::ManifestFetched(None));
    let bytes = match &a {
        SyncAction::UploadBytes { path, bytes } => {
            assert_eq!(path, "/Apps/Cha/sync_metadata.json");
            bytes.clone()
        },
        other => panic!("expected the manifest upload, got {:?}", other),
    };
    // A manifest with zero sessions is still a real manifest, never the
    // absent sentinel.
    let v: serde_json::Value = serde_json::from_slice(&bytes).unwrap();
    assert_eq!(v["hash"].as_str().unwrap().len(), 64);
    assert!(v["chat_session"].as_object().unwrap().is_empty());
    let (_, a) = sync.step(s, SyncEvent::Uploaded(Ok(())));
    assert!(matches!(a, SyncAction::Finish { require_reload: false }));
}

#[test]
fn no_change_run_transfers_nothing() {
    let sync = Synchronize::new("/Apps/Cha".to_string());
    let records = vec![record("a", "x", Some(1))];
    let s = drive_to_manifest(&sync, records);
    let local_hash = match &s {
        SyncState::FetchingManifest { local } => local.hash.clone(),
        other => panic!("unexpected state {:?}", other),
    };
    let remote = SyncMetadata { hash: local_hash, last_sync: 5, chat_session: vec![] };
    let (s, a) = sync.step(s, SyncEvent::ManifestFetched(Some(remote)));
    assert!(matches!(a, SyncAction::Finish { require_reload: false }));
    assert!(matches!(s, SyncState::Finished { require_reload: false }));
}

#[test]
fn reconcile_run_downloads_merges_uploads_and_republishes() {
    let sync = Synchronize::new("/Apps/Cha".to_string());
    let records = vec![record("s1", "local-one", Some(100)), record("l3", "local-only", Some(1))];
    let s = drive_to_manifest(&sync, records);

    // Remote: s1 diverged and strictly newer, r2 unknown locally.
    let remote = SyncMetadata {
        hash: "different".to_string(),
        last_sync: 5,
        chat_session: vec![
            ChatSessionMetadata {
                hash: Some("remote-hash-1".to_string()),
                id: "s1".to_string(),
                update_time: Some(200),
                content: None,
            },
            ChatSessionMetadata {
                hash: Some("remote-hash-2".to_string()),
                id: "r2".to_string(),
                update_time: Some(50),
                content: None,
            },
        ],
    };
    let mut finishes = 0;
    let (mut s, mut a) = sync.step(s, SyncEvent::ManifestFetched(Some(remote)));

    // Both remote sessions must be fetched and merged, one at a time.
    let mut downloaded_ids = Vec::new();
    loop {
        match &a {
            SyncAction::FetchSession { path } => {
                let id = path
                    .strip_prefix("/Apps/Cha/chat_sessions/")
                    .and_then(|p| p.strip_suffix(".json"))
                    .unwrap()
                    .to_string();
                let body = record(&id, "downloaded", Some(500));
                let (s2, a2) = sync.step(s, SyncEvent::SessionFetched(Ok(body)));
                match &a2 {
                    SyncAction::MergeAndStore { record } => {
                        assert_eq!(record.id, id);
                        downloaded_ids.push(id);
                    },
                    other => panic!("expected merge, got {:?}", other),
                }
                let (s3, a3) = sync.step(s2, SyncEvent::Merged(Ok(())));
                s = s3;
                a = a3;
            },
            SyncAction::ReadLocalRecords => break,
            other => panic!("unexpected action {:?}", other),
        }
    }
    downloaded_ids.sort();
    assert_eq!(downloaded_ids, vec!["r2".to_string(), "s1".to_string()]);

    // The store after the merges.
    let merged_records = vec![
        record("s1", "downloaded", Some(500)),
        record("l3", "local-only", Some(1)),
        record("r2", "downloaded", Some(500)),
    ];
    let (s2, a) = sync.step(s, SyncEvent::LocalRecords(merged_records.clone()));
    match &a {
        SyncAction::UploadBytes { path, bytes } => {
            assert_eq!(path, "/Apps/Cha/chat_sessions/l3.json");
            assert_eq!(bytes, b"local-only");
        },
        other => panic!("expected the local-only upload, got {:?}", other),
    }
    let (s3, a) = sync.step(s2, SyncEvent::Uploaded(Ok(())));
    assert!(matches!(a, SyncAction::ReadLocalRecords));
    let (s4, a) = sync.step(s3, SyncEvent::LocalRecords(merged_records));
    match &a {
        SyncAction::UploadBytes { path, .. } => {
            assert_eq!(path, "/Apps/Cha/sync_metadata.json")
        },
        other => panic!("expected the manifest republish, got {:?}", other),
    }
    let (s5, a) = sync.step(s4, SyncEvent::Uploaded(Ok(())));
    match &a {
        SyncAction::Finish { require_reload } => {
            finishes += 1;
            assert!(require_reload, "downloads happened, the UI must reload");
        },
        other => panic!("expected the finish, got {:?}", other),
    }
    assert!(matches!(s5, SyncState::Finished { require_reload: true }));
    assert_eq!(finishes, 1, "exactly one finish per completed run");
}

#[test]
fn absent_sentinel_manifest_also_triggers_first_sync() {
    let sync = Synchronize::new("/Apps/Cha".to_string());
    let records = vec![record("a", "x", Some(1))];
    let s = drive_to_manifest(&sync, records);
    let sentinel = SyncMetadata { hash: String::new(), last_sync: 0, chat_session: vec![] };
    let (_, a) = sync.step(s, SyncEvent::ManifestFetched(Some(sentinel)));
    match &a {
        SyncAction::UploadBytes { path, .. } => {
            assert_eq!(path, "/Apps/Cha/chat_sessions/a.json")
        },
        other => panic!("expected a first-sync upload, got {:?}", other),
    }
}

#[test]
fn failed_first_sync_upload_reports_the_error() {
    let sync = Synchronize::new("/Apps/Cha".to_string());
    let s = drive_to_manifest(&sync, vec![record("a", "x", None)]);
    let (s, _) = sync.step(s, SyncEvent::ManifestFetched(None));
    let (_, a) = sync.step(s, SyncEvent::Uploaded(Err("413".to_string())));
    match &a {
        SyncAction::Fail { message } => {
            assert_eq!(message, "Failed to upload session: 413")
        },
        other => panic!("expected failure, got {:?}", other),
    }
}

#[test]
fn a_session_lost_between_reads_fails_the_upload_phase() {
    let sync = Synchronize::new("/Apps/Cha".to_string());
    let records = vec![record("l3", "local-only", Some(1))];
    let s = drive_to_manifest(&sync, records);
    // Remote knows nothing, but is present: l3 must be uploaded.
    let remote = SyncMetadata { hash: "other".to_string(), last_sync: 0, chat_session: vec![] };
    let (s, a) = sync.step(s, SyncEvent::ManifestFetched(Some(remote)));
    assert!(matches!(a, SyncAction::ReadLocalRecords));
    // The store no longer holds l3 when re-read for the upload.
    let (_, a) = sync.step(s, SyncEvent::LocalRecords(vec![]));
    match &a {
        SyncAction::Fail { message } => assert_eq!(message, "Missing local session"),
        other => panic!("expected failure, got {:?}", other),
    }
}

#[test]
fn failed_merge_reports_the_error() {
    let sync = Synchronize::new("/Apps/Cha".to_string());
    let records = vec![record("s1", "local", Some(1))];
    let s = drive_to_manifest(&sync, records);
    let remote = SyncMetadata {
        hash: "other".to_string(),
        last_sync: 0,
        chat_session: vec![ChatSessionMetadata {
            hash: Some("remote-hash".to_string()),
            id: "s1".to_string(),
            update_time: Some(999),
            content: None,
        }],
    };
    let (s, a) = sync.step(s, SyncEvent::ManifestFetched(Some(remote)));
    assert!(matches!(a, SyncAction::FetchSession { .. }));
    let (s, _) = sync.step(
        s,
        SyncEvent::SessionFetched(Ok(record("s1", "downloaded", Some(999)))),
    );
    let (_, a) = sync.step(s, SyncEvent::Merged(Err("disk full".to_string())));
    match &a {
        SyncAction::Fail { message } => {
            assert_eq!(message, "Failed to apply remote change: disk full")
        },
        other => panic!("expected failure, got {:?}", other),
    }
}

#[test]
fn an_event_out_of_order_fails_the_run() {
    let sync = Synchronize::new("/Apps/Cha".to_string());
    let (_, a) = sync.step(SyncState::Idle, SyncEvent::LockAcquired);
    match &a {
        SyncAction::Fail { message } => {
            assert_eq!(message, "Unexpected synchronization event")
        },
        other => panic!("expected failure, got {:?}", other),
    }
}

#[test]
fn missing_settings_fail_the_run() {
    let sync = Synchronize::new("/Apps/Cha".to_string());
    let (s, _) = sync.step(SyncState::Idle, SyncEvent::Started);
    let (s, _) = sync.step(s, SyncEvent::LockAcquired);
    let (s, a) = sync.step(s, SyncEvent::SettingsLoaded(None));
    match &a {
        SyncAction::Fail { message } => assert_eq!(message, "No settings found"),
        other => panic!("expected failure, got {:?}", other),
    }
    assert!(matches!(s, SyncState::Failed { .. }));
}

#[test]
fn missing_refresh_token_fails_the_run() {
    let sync = Synchronize::new("/Apps/Cha".to_string());
    let (s, _) = sync.step(SyncState::Idle, SyncEvent::Started);
    let (s, _) = sync.step(s, SyncEvent::LockAcquired);
    let (_, a) = sync.step(s, SyncEvent::SettingsLoaded(Some(settings_with_token(None))));
    match &a {
        SyncAction::Fail { message } => assert_eq!(message, "No refresh token found"),
        other => panic!("expected failure, got {:?}", other),
    }
}

#[test]
fn failed_token_validation_reports_the_error() {
    let sync = Synchronize::new("/Apps/Cha".to_string());
    let (s, _) = sync.step(SyncState::Idle, SyncEvent::Started);
    let (s, _) = sync.step(s, SyncEvent::LockAcquired);
    let (s, _) = sync.step(
        s,
        SyncEvent::SettingsLoaded(Some(settings_with_token(Some("r")))),
    );
    let (s, _) = sync.step(s, SyncEvent::TokenExchanged(Ok("t".to_string())));
    let (_, a) = sync.step(s, SyncEvent::AuthChecked(Err("401".to_string())));
    match &a {
        SyncAction::Fail { message } => assert_eq!(message, "Authentication failed: 401"),
        other => panic!("expected failure, got {:?}", other),
    }
}

#[test]
fn record_without_content_fails_the_run() {
    let sync = Synchronize::new("/Apps/Cha".to_string());
    let (s, _) = sync.step(SyncState::Idle, SyncEvent::Started);
    let (s, _) = sync.step(s, SyncEvent::LockAcquired);
    let (s, _) = sync.step(
        s,
        SyncEvent::SettingsLoaded(Some(settings_with_token(Some("r")))),
    );
    let (s, _) = sync.step(s, SyncEvent::TokenExchanged(Ok("t".to_string())));
    let (s, _) = sync.step(s, SyncEvent::AuthChecked(Ok(())));
    let broken = ChatSessionMetadata {
        hash: None,
        id: "x".to_string(),
        update_time: None,
        content: None,
    };
    let (_, a) = sync.step(s, SyncEvent::LocalRecords(vec![broken]));
    match &a {
        SyncAction::Fail { message } => assert_eq!(message, "Missing session content"),
        other => panic!("expected failure, got {:?}", other),
    }
}
