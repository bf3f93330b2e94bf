//! The synchronization orchestrator: a state machine that sequences one
//! reconciliation run.
//!
//! The machine owns every decision of a run — which step comes next,
//! which branch a run takes (first sync, no change, reconcile), which
//! paths are read and written, what travels in each upload — while all
//! I/O is performed by the surrounding application: each `step` consumes
//! the outcome of the previous action as a [`SyncEvent`] and returns the
//! next state together with the next [`SyncAction`]. A run ends when the
//! action is `Finish` or `Fail`; within a run, every download is applied
//! to the local store before any upload is sent, and the manifest is
//! republished last.

use vstd::prelude::*;

verus! {

use vstd::utf8::encode_utf8;
use vstd::string::StringExecFns;
use vstd::string::StrSliceExecFns;
use crate::metadata::ChatSessionMetadata;
use crate::metadata::SyncMetadata;
use crate::metadata::has_session;
use crate::metadata::session_for;
use crate::metadata::content_view;
use crate::metadata::sorted_ids;
use crate::metadata::spec_normalized;
use crate::metadata::spec_built_manifest;
use crate::metadata::spec_is_absent;
use crate::metadata::sort_sessions;
use crate::metadata::find_session;
use crate::metadata::build_sync_metadata;
use crate::metadata::lemma_sorted_unique;
use crate::metadata::now_millis;
use crate::plan::SyncPlan;
use crate::plan::spec_plan_matches;
use crate::codec::spec_encode_manifest;
use crate::codec::encode_manifest;
use crate::settings::Settings;

/// Where a reconciliation run stands.
#[derive(Debug)]
pub enum SyncState {
    /// No run is underway.
    Idle,
    /// Waiting for the execution lock.
    Locking,
    /// Waiting for the settings record.
    LoadingSettings,
    /// Waiting for the refresh-token exchange.
    ExchangingToken,
    /// Waiting for the token validation against the provider.
    CheckingAuth,
    /// Waiting for the local session records.
    ReadingLocal,
    /// Local manifest built; waiting for the remote manifest.
    FetchingManifest { local: SyncMetadata },
    /// No remote manifest exists: uploading every local session, then
    /// the manifest. `next` is the session being uploaded; one past the
    /// end means the manifest upload is in flight.
    FirstSync { local: SyncMetadata, next: usize },
    /// Applying remote changes: fetching the session `next` of the plan.
    Applying { local: SyncMetadata, remote: SyncMetadata, plan: SyncPlan, next: usize },
    /// Applying remote changes: merging the fetched session `next` into
    /// the local store.
    Merging { local: SyncMetadata, remote: SyncMetadata, plan: SyncPlan, next: usize },
    /// Downloads applied; re-reading the store before uploading.
    RereadingForUpload { plan: SyncPlan, downloaded: bool },
    /// Uploading the session `next` of the plan from a fresh manifest.
    Uploading { local: SyncMetadata, plan: SyncPlan, next: usize, downloaded: bool },
    /// Uploads sent; re-reading the store before republishing.
    RereadingForPublish { downloaded: bool },
    /// Republishing the manifest.
    Publishing { downloaded: bool },
    /// The run completed; the UI must reload when sessions were
    /// downloaded.
    Finished { require_reload: bool },
    /// The run failed with a descriptive message.
    Failed { message: String },
}

/// What the application reports back to the machine.
#[derive(Debug)]
pub enum SyncEvent {
    /// A reconciliation run was requested.
    Started,
    /// The execution lock was acquired.
    LockAcquired,
    /// The settings record, or nothing when the store holds none.
    SettingsLoaded(Option<Settings>),
    /// The refresh-token exchange returned an access token, or failed.
    TokenExchanged(Result<String, String>),
    /// The token validation against the provider succeeded, or failed.
    AuthChecked(Result<(), String>),
    /// The session records read from the local store.
    LocalRecords(Vec<ChatSessionMetadata>),
    /// The remote manifest, or nothing when it could not be fetched or
    /// parsed — a valid first-run state, never an error.
    ManifestFetched(Option<SyncMetadata>),
    /// A remote session body was fetched and parsed, or failed.
    SessionFetched(Result<ChatSessionMetadata, String>),
    /// The merged session list was written to the local store, or not.
    Merged(Result<(), String>),
    /// An upload completed, or failed.
    Uploaded(Result<(), String>),
}

/// What the application must do next.
#[derive(Debug)]
pub enum SyncAction {
    /// Acquire the execution lock, announcing the run to the UI.
    AcquireLock,
    /// Read the settings record from the local store.
    LoadSettings,
    /// Exchange the refresh token for an access token.
    ExchangeToken { refresh_token: String },
    /// Validate the access token against the provider.
    CheckAuth,
    /// Read all session records from the local store.
    ReadLocalRecords,
    /// Fetch the remote manifest at the given path.
    FetchManifest { path: String },
    /// Fetch a remote session body at the given path.
    FetchSession { path: String },
    /// Merge the record into the stored session list and write it back.
    MergeAndStore { record: ChatSessionMetadata },
    /// Write the given bytes to the given remote path, overwriting.
    UploadBytes { path: String, bytes: Vec<u8> },
    /// Release the lock; ask the UI to reload when sessions were
    /// downloaded.
    Finish { require_reload: bool },
    /// Release the lock and report the failure.
    Fail { message: String },
}

/// The path a session body is stored under, below the provider root.
pub open spec fn spec_session_path(root: Seq<char>, id: Seq<char>) -> Seq<char> {
    root + "/chat_sessions/"@ + id + ".json"@
}

/// The path the manifest is stored under, below the provider root.
pub open spec fn spec_manifest_path(root: Seq<char>) -> Seq<char> {
    root + "/sync_metadata.json"@
}

/// The refresh token the settings hold for the provider, if any.
pub open spec fn spec_refresh_token(st: Settings) -> Option<Seq<char>> {
    match st.sync_config.providers_config {
        Some(pc) => match pc.dropbox.refresh_token {
            Some(t) => Some(t@),
            None => None,
        },
        None => None,
    }
}

/// The step failed: the run moves to `Failed` and the application is
/// told to release the lock and report the message.
pub open spec fn spec_failed(s2: SyncState, a: SyncAction, msg: Seq<char>) -> bool {
    &&& s2 matches SyncState::Failed { message } && message@ == msg
    &&& a matches SyncAction::Fail { message: m } && m@ == msg
}

/// The run completed: the machine reaches `Finished` and the
/// application releases the lock, asking the UI to reload when sessions
/// were downloaded.
pub open spec fn spec_finish(s2: SyncState, a: SyncAction, reload: bool) -> bool {
    &&& s2 matches SyncState::Finished { require_reload } && require_reload == reload
    &&& a matches SyncAction::Finish { require_reload: r2 } && r2 == reload
}

/// One first-sync step at position `n`: upload the `n`-th local session
/// body, or — past the last session — the manifest itself; a session
/// without content fails the run.
pub open spec fn spec_first_sync_step(
    root: Seq<char>,
    local: SyncMetadata,
    n: int,
    s2: SyncState,
    a: SyncAction,
) -> bool {
    if n < local.chat_session@.len() {
        if content_view(local.chat_session@[n]) is Some {
            &&& s2 matches SyncState::FirstSync { local: l2, next: n2 } && l2 == local && n2 as int
                == n
            &&& a matches SyncAction::UploadBytes { path, bytes } && path@ == spec_session_path(
                root,
                local.chat_session@[n].id@,
            ) && bytes@ == encode_utf8(content_view(local.chat_session@[n]).unwrap())
        } else {
            spec_failed(s2, a, "Missing session content"@)
        }
    } else {
        &&& s2 matches SyncState::FirstSync { local: l2, next: n2 } && l2 == local && n2 as int
            == n
        &&& a matches SyncAction::UploadBytes { path, bytes } && path@ == spec_manifest_path(root)
            && bytes@ == spec_encode_manifest(local.hash@, local.last_sync, local.chat_session@)
    }
}

/// One upload step at position `n` of the plan, out of the given session
/// list: upload the session's content; a session the list does not hold
/// or one without content fails the run; past the last planned upload
/// the machine moves on to republishing.
pub open spec fn spec_upload_step(
    root: Seq<char>,
    sessions: Seq<ChatSessionMetadata>,
    plan: SyncPlan,
    n: int,
    downloaded: bool,
    s2: SyncState,
    a: SyncAction,
) -> bool {
    if n < plan.to_upload@.len() {
        let id = plan.to_upload@[n]@;
        if has_session(sessions, id) && content_view(session_for(sessions, id)) is Some {
            &&& s2 matches SyncState::Uploading { local: l2, plan: p2, next: n2, downloaded: d2 }
                && l2.chat_session@ == sessions && p2 == plan && n2 as int == n && d2 == downloaded
            &&& a matches SyncAction::UploadBytes { path, bytes } && path@ == spec_session_path(
                root,
                id,
            ) && bytes@ == encode_utf8(content_view(session_for(sessions, id)).unwrap())
        } else if !has_session(sessions, id) {
            spec_failed(s2, a, "Missing local session"@)
        } else {
            spec_failed(s2, a, "Missing session content"@)
        }
    } else {
        &&& s2 matches SyncState::RereadingForPublish { downloaded: d2 } && d2 == downloaded
        &&& a == SyncAction::ReadLocalRecords
    }
}

/// Entry into reconciliation with a freshly computed plan: fetch the
/// first planned download, or — with nothing to download — re-read the
/// store to prepare the uploads.
pub open spec fn spec_reconcile_entry(
    root: Seq<char>,
    ln: Seq<ChatSessionMetadata>,
    rn: Seq<ChatSessionMetadata>,
    s2: SyncState,
    a: SyncAction,
) -> bool {
    ||| {
        &&& s2 matches SyncState::Applying { local: l2, remote: r2, plan, next } && l2.chat_session@
            == ln && r2.chat_session@ == rn && next == 0 && spec_plan_matches(plan, ln, rn)
            && plan.to_download@.len() > 0
        &&& s2 matches SyncState::Applying { plan, .. } && a matches SyncAction::FetchSession {
            path,
        } && path@ == spec_session_path(root, plan.to_download@[0]@)
    }
    ||| {
        &&& s2 matches SyncState::RereadingForUpload { plan, downloaded } && downloaded == false
            && spec_plan_matches(plan, ln, rn) && plan.to_download@.len() == 0
        &&& a == SyncAction::ReadLocalRecords
    }
}

/// The synchronization orchestrator for one provider root folder.
pub struct Synchronize {
    pub root: String,
}

impl Synchronize {
    /// An orchestrator publishing under the given provider root folder.
    pub fn new(root: String) -> (r: Synchronize)
        ensures
            r.root@ == root@,
    {
        Synchronize { root }
    }

    /// The remote path of a session body.
    pub fn session_path(&self, id: &str) -> (r: String)
        ensures
            r@ == spec_session_path(self.root@, id@),
    {
        let mut p = self.root.clone();
        p.append("/chat_sessions/");
        p.append(id);
        p.append(".json");
        proof {
            assert(p@ =~= spec_session_path(self.root@, id@));
        }
        p
    }

    /// The remote path of the manifest.
    pub fn manifest_path(&self) -> (r: String)
        ensures
            r@ == spec_manifest_path(self.root@),
    {
        let mut p = self.root.clone();
        p.append("/sync_metadata.json");
        proof {
            assert(p@ =~= spec_manifest_path(self.root@));
        }
        p
    }

    fn failed(&self, msg: &str) -> (r: (SyncState, SyncAction))
        ensures
            spec_failed(r.0, r.1, msg@),
    {
        (
            SyncState::Failed { message: msg.to_owned() },
            SyncAction::Fail { message: msg.to_owned() },
        )
    }

    fn failed_owned(&self, msg: String) -> (r: (SyncState, SyncAction))
        ensures
            spec_failed(r.0, r.1, msg@),
    {
        let copy = msg.clone();
        (SyncState::Failed { message: msg }, SyncAction::Fail { message: copy })
    }

    fn failed_msg(&self, prefix: &str, detail: &str) -> (r: (SyncState, SyncAction))
        ensures
            spec_failed(r.0, r.1, prefix@ + detail@),
    {
        let mut m = prefix.to_owned();
        m.append(detail);
        let m2 = m.clone();
        (SyncState::Failed { message: m }, SyncAction::Fail { message: m2 })
    }

    fn first_sync_step(&self, local: SyncMetadata, next: usize) -> (r: (SyncState, SyncAction))
        ensures
            spec_first_sync_step(self.root@, local, next as int, r.0, r.1),
    {
        if next < local.chat_session.len() {
            let path = self.session_path(local.chat_session[next].id.as_str());
            match &local.chat_session[next].content {
                Some(c) => {
                    let bytes = c.as_str().as_bytes_vec();
                    (
                        SyncState::FirstSync { local, next },
                        SyncAction::UploadBytes { path, bytes },
                    )
                },
                None => self.failed("Missing session content"),
            }
        } else {
            let path = self.manifest_path();
            let bytes = encode_manifest(&local);
            (SyncState::FirstSync { local, next }, SyncAction::UploadBytes { path, bytes })
        }
    }

    fn upload_step(&self, local: SyncMetadata, plan: SyncPlan, next: usize, downloaded: bool) -> (r:
        (SyncState, SyncAction))
        requires
            sorted_ids(local.chat_session@),
        ensures
            spec_upload_step(
                self.root@,
                local.chat_session@,
                plan,
                next as int,
                downloaded,
                r.0,
                r.1,
            ),
    {
        if next < plan.to_upload.len() {
            proof {
                lemma_sorted_unique(local.chat_session@);
            }
            let path = self.session_path(plan.to_upload[next].as_str());
            let mut bytes_found: Option<Vec<u8>> = None;
            let mut session_found = false;
            match find_session(&local.chat_session, plan.to_upload[next].as_str()) {
                Some(s) => {
                    session_found = true;
                    match &s.content {
                        Some(c) => {
                            bytes_found = Some(c.as_str().as_bytes_vec());
                        },
                        None => {},
                    }
                },
                None => {},
            }
            if !session_found {
                self.failed("Missing local session")
            } else {
                match bytes_found {
                    Some(bytes) => (
                        SyncState::Uploading { local, plan, next, downloaded },
                        SyncAction::UploadBytes { path, bytes },
                    ),
                    None => self.failed("Missing session content"),
                }
            }
        } else {
            (SyncState::RereadingForPublish { downloaded }, SyncAction::ReadLocalRecords)
        }
    }

    /// Drive the run one step: consume the outcome of the previous
    /// action and decide the next state and action. The contract states
    /// every transition of the lifecycle: lock, settings, token
    /// exchange and validation, local and remote manifest, then one of
    /// first sync (remote absent), no change (equal aggregate
    /// fingerprints, nothing transferred), or reconcile — apply every
    /// planned download to the store, upload every planned session from
    /// a fresh manifest, republish the manifest — and finally the
    /// notification decision.
    pub fn step(&self, state: SyncState, event: SyncEvent) -> (r: (SyncState, SyncAction))
        ensures
            ({
                let (s2, a) = r;
                match (state, event) {
                    (SyncState::Idle, SyncEvent::Started) => s2 is Locking && a
                        == SyncAction::AcquireLock,
                    (SyncState::Locking, SyncEvent::LockAcquired) => s2 is LoadingSettings && a
                        == SyncAction::LoadSettings,
                    (SyncState::LoadingSettings, SyncEvent::SettingsLoaded(opt)) => match opt {
                        None => spec_failed(s2, a, "No settings found"@),
                        Some(st) => match spec_refresh_token(st) {
                            Some(t) => {
                                &&& s2 is ExchangingToken
                                &&& a matches SyncAction::ExchangeToken { refresh_token }
                                    && refresh_token@ == t
                            },
                            None => spec_failed(s2, a, "No refresh token found"@),
                        },
                    },
                    (SyncState::ExchangingToken, SyncEvent::TokenExchanged(res)) => match res {
                        Ok(_) => s2 is CheckingAuth && a == SyncAction::CheckAuth,
                        Err(e) => spec_failed(s2, a, e@),
                    },
                    (SyncState::CheckingAuth, SyncEvent::AuthChecked(res)) => match res {
                        Ok(_) => s2 is ReadingLocal && a == SyncAction::ReadLocalRecords,
                        Err(e) => spec_failed(s2, a, "Authentication failed: "@ + e@),
                    },
                    (SyncState::ReadingLocal, SyncEvent::LocalRecords(records)) => {
                        if forall|i: int|
                            0 <= i < records@.len() ==> (#[trigger] records@[i]).content is Some {
                            &&& s2 matches SyncState::FetchingManifest { local }
                                && spec_built_manifest(records@, local)
                            &&& a matches SyncAction::FetchManifest { path } && path@
                                == spec_manifest_path(self.root@)
                        } else {
                            spec_failed(s2, a, "Missing session content"@)
                        }
                    },
                    (SyncState::FetchingManifest { local }, SyncEvent::ManifestFetched(fetched)) => {
                        if fetched is None || spec_is_absent(fetched.unwrap()) {
                            spec_first_sync_step(self.root@, local, 0, s2, a)
                        } else if fetched.unwrap().hash@ == local.hash@ {
                            spec_finish(s2, a, false)
                        } else {
                            exists|ln: Seq<ChatSessionMetadata>, rn: Seq<ChatSessionMetadata>|
                                {
                                    &&& #[trigger] spec_normalized(local.chat_session@, ln)
                                    &&& #[trigger] spec_normalized(
                                        fetched.unwrap().chat_session@,
                                        rn,
                                    )
                                    &&& spec_reconcile_entry(self.root@, ln, rn, s2, a)
                                }
                        }
                    },
                    (SyncState::FirstSync { local, next }, SyncEvent::Uploaded(res)) => match res {
                        Ok(_) => {
                            if next < local.chat_session@.len() {
                                spec_first_sync_step(self.root@, local, next + 1, s2, a)
                            } else {
                                spec_finish(s2, a, false)
                            }
                        },
                        Err(e) => {
                            if next < local.chat_session@.len() {
                                spec_failed(s2, a, "Failed to upload session: "@ + e@)
                            } else {
                                spec_failed(s2, a, "Uploading metadata failed: "@ + e@)
                            }
                        },
                    },
                    (
                        SyncState::Applying { local, remote, plan, next },
                        SyncEvent::SessionFetched(res),
                    ) => match res {
                        Ok(record) => {
                            &&& s2 matches SyncState::Merging {
                                local: l2,
                                remote: r2,
                                plan: p2,
                                next: n2,
                            } && l2 == local && r2 == remote && p2 == plan && n2 == next
                            &&& a matches SyncAction::MergeAndStore { record: rec2 } && rec2
                                == record
                        },
                        Err(e) => spec_failed(s2, a, "Failed to apply remote change: "@ + e@),
                    },
                    (SyncState::Merging { local, remote, plan, next }, SyncEvent::Merged(res)) => match res {
                        Ok(_) => {
                            if next < plan.to_download@.len() && next + 1 < plan.to_download@.len() {
                                &&& s2 matches SyncState::Applying {
                                    local: l2,
                                    remote: r2,
                                    plan: p2,
                                    next: n2,
                                } && l2 == local && r2 == remote && p2 == plan && n2 as int == next
                                    + 1
                                &&& a matches SyncAction::FetchSession { path } && path@
                                    == spec_session_path(
                                    self.root@,
                                    plan.to_download@[next as int + 1]@,
                                )
                            } else {
                                &&& s2 matches SyncState::RereadingForUpload {
                                    plan: p2,
                                    downloaded,
                                } && p2 == plan && downloaded == true
                                &&& a == SyncAction::ReadLocalRecords
                            }
                        },
                        Err(e) => spec_failed(s2, a, "Failed to apply remote change: "@ + e@),
                    },
                    (
                        SyncState::RereadingForUpload { plan, downloaded },
                        SyncEvent::LocalRecords(records),
                    ) => {
                        if forall|i: int|
                            0 <= i < records@.len() ==> (#[trigger] records@[i]).content is Some {
                            if plan.to_upload@.len() == 0 {
                                &&& s2 matches SyncState::RereadingForPublish { downloaded: d2 }
                                    && d2 == downloaded
                                &&& a == SyncAction::ReadLocalRecords
                            } else {
                                exists|m: SyncMetadata|
                                    #[trigger] spec_built_manifest(records@, m) && spec_upload_step(
                                        self.root@,
                                        m.chat_session@,
                                        plan,
                                        0,
                                        downloaded,
                                        s2,
                                        a,
                                    )
                            }
                        } else {
                            spec_failed(s2, a, "Missing session content"@)
                        }
                    },
                    (
                        SyncState::Uploading { local, plan, next, downloaded },
                        SyncEvent::Uploaded(res),
                    ) => match res {
                        Ok(_) => {
                            if next < plan.to_upload@.len() {
                                exists|ln: Seq<ChatSessionMetadata>|
                                    #[trigger] spec_normalized(local.chat_session@, ln)
                                        && spec_upload_step(
                                        self.root@,
                                        ln,
                                        plan,
                                        next + 1,
                                        downloaded,
                                        s2,
                                        a,
                                    )
                            } else {
                                &&& s2 matches SyncState::RereadingForPublish { downloaded: d2 }
                                    && d2 == downloaded
                                &&& a == SyncAction::ReadLocalRecords
                            }
                        },
                        Err(e) => spec_failed(s2, a, "Uploading session failed: "@ + e@),
                    },
                    (
                        SyncState::RereadingForPublish { downloaded },
                        SyncEvent::LocalRecords(records),
                    ) => {
                        if forall|i: int|
                            0 <= i < records@.len() ==> (#[trigger] records@[i]).content is Some {
                            &&& s2 matches SyncState::Publishing { downloaded: d2 } && d2
                                == downloaded
                            &&& a matches SyncAction::UploadBytes { path, bytes } && path@
                                == spec_manifest_path(self.root@) && exists|m: SyncMetadata|
                                #[trigger] spec_built_manifest(records@, m) && bytes@
                                    == spec_encode_manifest(m.hash@, m.last_sync, m.chat_session@)
                        } else {
                            spec_failed(s2, a, "Missing session content"@)
                        }
                    },
                    (SyncState::Publishing { downloaded }, SyncEvent::Uploaded(res)) => match res {
                        Ok(_) => spec_finish(s2, a, downloaded),
                        Err(e) => spec_failed(s2, a, "Uploading metadata failed: "@ + e@),
                    },
                    _ => spec_failed(s2, a, "Unexpected synchronization event"@),
                }
            }),
    {
        match (state, event) {
            (SyncState::Idle, SyncEvent::Started) => (
                SyncState::Locking,
                SyncAction::AcquireLock,
            ),
            (SyncState::Locking, SyncEvent::LockAcquired) => (
                SyncState::LoadingSettings,
                SyncAction::LoadSettings,
            ),
            (SyncState::LoadingSettings, SyncEvent::SettingsLoaded(opt)) => match opt {
                None => self.failed("No settings found"),
                Some(st) => match st.refresh_token() {
                    Some(t) => (
                        SyncState::ExchangingToken,
                        SyncAction::ExchangeToken { refresh_token: t },
                    ),
                    None => self.failed("No refresh token found"),
                },
            },
            (SyncState::ExchangingToken, SyncEvent::TokenExchanged(res)) => match res {
                Ok(_) => (SyncState::CheckingAuth, SyncAction::CheckAuth),
                Err(e) => self.failed_owned(e),
            },
            (SyncState::CheckingAuth, SyncEvent::AuthChecked(res)) => match res {
                Ok(_) => (SyncState::ReadingLocal, SyncAction::ReadLocalRecords),
                Err(e) => self.failed_msg("Authentication failed: ", e.as_str()),
            },
            (SyncState::ReadingLocal, SyncEvent::LocalRecords(records)) => {
                let now = now_millis();
                match build_sync_metadata(&records, now) {
                    Ok(local) => {
                        let path = self.manifest_path();
                        (
                            SyncState::FetchingManifest { local },
                            SyncAction::FetchManifest { path },
                        )
                    },
                    Err(e) => self.failed_owned(e),
                }
            },
            (SyncState::FetchingManifest { local }, SyncEvent::ManifestFetched(fetched)) => {
                let remote = match fetched {
                    Some(rm) => rm,
                    None => SyncMetadata::default(),
                };
                if remote.is_absent() {
                    self.first_sync_step(local, 0)
                } else if local.hash == remote.hash {
                    (
                        SyncState::Finished { require_reload: false },
                        SyncAction::Finish { require_reload: false },
                    )
                } else {
                    let local_sorted = sort_sessions(&local.chat_session);
                    let remote_sorted = sort_sessions(&remote.chat_session);
                    let l2 = SyncMetadata {
                        hash: local.hash,
                        last_sync: local.last_sync,
                        chat_session: local_sorted,
                    };
                    let r2 = SyncMetadata {
                        hash: remote.hash,
                        last_sync: remote.last_sync,
                        chat_session: remote_sorted,
                    };
                    proof {
                        lemma_sorted_unique(l2.chat_session@);
                        lemma_sorted_unique(r2.chat_session@);
                    }
                    let plan = SyncPlan::new().create_sync_plan(&l2, &r2);
                    if plan.to_download.len() > 0 {
                        let path = self.session_path(plan.to_download[0].as_str());
                        (
                            SyncState::Applying { local: l2, remote: r2, plan, next: 0 },
                            SyncAction::FetchSession { path },
                        )
                    } else {
                        (
                            SyncState::RereadingForUpload { plan, downloaded: false },
                            SyncAction::ReadLocalRecords,
                        )
                    }
                }
            },
            (SyncState::FirstSync { local, next }, SyncEvent::Uploaded(res)) => match res {
                Ok(_) => {
                    if next < local.chat_session.len() {
                        let n2 = next + 1;
                        self.first_sync_step(local, n2)
                    } else {
                        (
                            SyncState::Finished { require_reload: false },
                            SyncAction::Finish { require_reload: false },
                        )
                    }
                },
                Err(e) => {
                    if next < local.chat_session.len() {
                        self.failed_msg("Failed to upload session: ", e.as_str())
                    } else {
                        self.failed_msg("Uploading metadata failed: ", e.as_str())
                    }
                },
            },
            (
                SyncState::Applying { local, remote, plan, next },
                SyncEvent::SessionFetched(res),
            ) => match res {
                Ok(record) => (
                    SyncState::Merging { local, remote, plan, next },
                    SyncAction::MergeAndStore { record },
                ),
                Err(e) => self.failed_msg("Failed to apply remote change: ", e.as_str()),
            },
            (SyncState::Merging { local, remote, plan, next }, SyncEvent::Merged(res)) => match res {
                Ok(_) => {
                    if next < plan.to_download.len() {
                        let n2 = next + 1;
                        if n2 < plan.to_download.len() {
                            let path = self.session_path(plan.to_download[n2].as_str());
                            (
                                SyncState::Applying { local, remote, plan, next: n2 },
                                SyncAction::FetchSession { path },
                            )
                        } else {
                            (
                                SyncState::RereadingForUpload { plan, downloaded: true },
                                SyncAction::ReadLocalRecords,
                            )
                        }
                    } else {
                        (
                            SyncState::RereadingForUpload { plan, downloaded: true },
                            SyncAction::ReadLocalRecords,
                        )
                    }
                },
                Err(e) => self.failed_msg("Failed to apply remote change: ", e.as_str()),
            },
            (
                SyncState::RereadingForUpload { plan, downloaded },
                SyncEvent::LocalRecords(records),
            ) => {
                let now = now_millis();
                match build_sync_metadata(&records, now) {
                    Ok(fresh) => {
                        let ghost fresh_g = fresh;
                        if plan.to_upload.len() == 0 {
                            (
                                SyncState::RereadingForPublish { downloaded },
                                SyncAction::ReadLocalRecords,
                            )
                        } else {
                            let r = self.upload_step(fresh, plan, 0, downloaded);
                            proof {
                                assert(spec_built_manifest(records@, fresh_g));
                            }
                            r
                        }
                    },
                    Err(e) => self.failed_owned(e),
                }
            },
            (
                SyncState::Uploading { local, plan, next, downloaded },
                SyncEvent::Uploaded(res),
            ) => match res {
                Ok(_) => {
                    if next < plan.to_upload.len() {
                        let sorted = sort_sessions(&local.chat_session);
                        let l2 = SyncMetadata {
                            hash: local.hash,
                            last_sync: local.last_sync,
                            chat_session: sorted,
                        };
                        let n2 = next + 1;
                        self.upload_step(l2, plan, n2, downloaded)
                    } else {
                        (
                            SyncState::RereadingForPublish { downloaded },
                            SyncAction::ReadLocalRecords,
                        )
                    }
                },
                Err(e) => self.failed_msg("Uploading session failed: ", e.as_str()),
            },
            (
                SyncState::RereadingForPublish { downloaded },
                SyncEvent::LocalRecords(records),
            ) => {
                let now = now_millis();
                match build_sync_metadata(&records, now) {
                    Ok(fresh) => {
                        let ghost fresh_g = fresh;
                        let path = self.manifest_path();
                        let bytes = encode_manifest(&fresh);
                        proof {
                            assert(spec_built_manifest(records@, fresh_g));
                        }
                        (
                            SyncState::Publishing { downloaded },
                            SyncAction::UploadBytes { path, bytes },
                        )
                    },
                    Err(e) => self.failed_owned(e),
                }
            },
            (SyncState::Publishing { downloaded }, SyncEvent::Uploaded(res)) => match res {
                Ok(_) => (
                    SyncState::Finished { require_reload: downloaded },
                    SyncAction::Finish { require_reload: downloaded },
                ),
                Err(e) => self.failed_msg("Uploading metadata failed: ", e.as_str()),
            },
            (_, _) => self.failed("Unexpected synchronization event"),
        }
    }
}

} // verus!

