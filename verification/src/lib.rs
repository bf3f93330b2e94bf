//! Reconciliation engine for a two-way chat-session synchronizer.
//!
//! The library covers the pure core of the synchronizer: content
//! fingerprinting, manifest construction and its canonical wire encoding,
//! the two-way diff that plans uploads and downloads, the replace-by-id
//! merge applied to the local store, and the lifecycle state machine that
//! sequences one reconciliation run. All I/O (the remote object store, the
//! local key-value store, the UI notification channel) is performed by the
//! surrounding application, which feeds results back in as plain values.

pub mod codec;
pub mod engine;
pub mod error;
pub mod fingerprint;
pub mod merge;
pub mod metadata;
pub mod plan;
pub mod settings;
pub mod status;
