use cha_sync::error::SyncError;
use cha_sync::settings::{
    sync_interval_secs, DropboxConfig, ProvidersConfig, Settings, SyncDataType, SyncProvider,
    SynchronizedConfig,
};
use cha_sync::status::{SyncPayload, SyncStatus};

fn settings(providers: Option<ProvidersConfig>, frequency: u64) -> Settings {
    Settings {
        show_word_count: None,
        show_token_count: None,
        show_token_used: None,
        show_model_name: None,
        show_message_timestamp: None,
        language_inited: None,
        font_size: None,
        spell_check: None,
        default_prompt: None,
        proxy: None,
        allow_reporting_and_tracking: false,
        user_avatar_key: None,
        enable_markdown_rendering: false,
        auto_generate_title: false,
        sync_config: SynchronizedConfig {
            provider: SyncProvider::NoProvider,
            providers_config: providers,
            frequency,
            on_app_launch: false,
            sync_data_type: vec![SyncDataType::All],
        },
    }
}

#[test]
fn refresh_token_comes_from_the_provider_config() {
    let with = settings(
        Some(ProvidersConfig {
            dropbox: DropboxConfig {
                client_id: None,
                client_secret: None,
                auth_token: None,
                refresh_token: Some("tok".to_string()),
            },
        }),
        60,
    );
    assert_eq!(with.refresh_token(), Some("tok".to_string()));

    let without_config = settings(None, 60);
    assert_eq!(without_config.refresh_token(), None);

    let without_token = settings(
        Some(ProvidersConfig {
            dropbox: DropboxConfig {
                client_id: None,
                client_secret: None,
                auth_token: None,
                refresh_token: None,
            },
        }),
        60,
    );
    assert_eq!(without_token.refresh_token(), None);
}

#[test]
fn interval_of_a_failed_settings_load_is_zero() {
    assert_eq!(sync_interval_secs(&None), 0);
    assert_eq!(sync_interval_secs(&Some(settings(None, 300))), 300);
    assert_eq!(sync_interval_secs(&Some(settings(None, 0))), 0);
}

#[test]
fn error_messages_match_their_variant() {
    assert_eq!(SyncError::MissingProviderConfig.message(), "Provider config not found");
    assert_eq!(SyncError::MissingAuthToken.message(), "Authentication token missing");
}

#[test]
fn lifecycle_payloads_carry_status_and_error_text() {
    assert!(matches!(SyncPayload::in_progress().status, SyncStatus::InProgress));
    assert!(SyncPayload::in_progress().error_message.is_none());
    assert!(matches!(SyncPayload::finished().status, SyncStatus::Finished));
    assert!(matches!(SyncPayload::require_reload().status, SyncStatus::RequireReload));
    let err = SyncPayload::error("boom".to_string());
    assert!(matches!(err.status, SyncStatus::Error));
    assert_eq!(err.error_message.as_deref(), Some("boom"));
}
