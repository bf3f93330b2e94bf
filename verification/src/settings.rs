//! Application settings, as far as the synchronization core reads them,
//! and the pure decisions taken over them: which refresh token to use and
//! how often the background driver should run.

use vstd::prelude::*;

verus! {

/// The kinds of data a provider may synchronize.
#[derive(Debug, Clone, PartialEq, Eq, Structural)]
pub enum SyncDataType {
    All,
    Chat,
    Config,
}

/// The remote providers the application knows about.
#[derive(Debug, Clone, PartialEq, Eq, Structural)]
pub enum SyncProvider {
    NoProvider,
    Dropbox,
    GoogleDrive,
    OneDrive,
}

/// Credentials for the Dropbox provider.
#[derive(Debug, Clone)]
pub struct DropboxConfig {
    pub client_id: Option<String>,
    pub client_secret: Option<String>,
    pub auth_token: Option<String>,
    pub refresh_token: Option<String>,
}

/// Per-provider configuration.
#[derive(Debug, Clone)]
pub struct ProvidersConfig {
    pub dropbox: DropboxConfig,
}

/// Synchronization configuration: the active provider, its credentials,
/// and the background interval in seconds (zero disables the driver).
#[derive(Debug, Clone)]
pub struct SynchronizedConfig {
    pub provider: SyncProvider,
    pub providers_config: Option<ProvidersConfig>,
    pub frequency: u64,
    pub on_app_launch: bool,
    pub sync_data_type: Vec<SyncDataType>,
}

/// The application settings, restricted to the fields the core reads.
#[derive(Debug, Clone)]
pub struct Settings {
    pub show_word_count: Option<bool>,
    pub show_token_count: Option<bool>,
    pub show_token_used: Option<bool>,
    pub show_model_name: Option<bool>,
    pub show_message_timestamp: Option<bool>,
    pub language_inited: Option<bool>,
    pub font_size: Option<u32>,
    pub spell_check: Option<bool>,
    pub default_prompt: Option<String>,
    pub proxy: Option<String>,
    pub allow_reporting_and_tracking: bool,
    pub user_avatar_key: Option<String>,
    pub enable_markdown_rendering: bool,
    pub auto_generate_title: bool,
    pub sync_config: SynchronizedConfig,
}

impl Settings {
    /// The refresh token a run must use: the one stored for the Dropbox
    /// provider, if a provider configuration is present at all.
    pub fn refresh_token(&self) -> (r: Option<String>)
        ensures
            match self.sync_config.providers_config {
                Some(pc) => r.deep_view() == pc.dropbox.refresh_token.deep_view(),
                None => r is None,
            },
    {
        match &self.sync_config.providers_config {
            Some(pc) => match &pc.dropbox.refresh_token {
                Some(t) => Some(t.clone()),
                None => None,
            },
            None => None,
        }
    }
}

/// The background interval in seconds for a settings load that may have
/// failed: a missing settings record disables the driver, exactly as a
/// configured interval of zero does.
pub fn sync_interval_secs(settings: &Option<Settings>) -> (r: u64)
    ensures
        match settings {
            Some(s) => r == s.sync_config.frequency,
            None => r == 0,
        },
{
    match settings {
        Some(s) => s.sync_config.frequency,
        None => 0,
    }
}

} // verus!
