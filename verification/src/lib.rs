//! `mail-sync-kit` — self-contained mail sync engines.
//!
//! JMAP sync (RFC 8620/8621), the outbox queue with a documented retry
//! schedule, and the decision points of the IMAP engine, each with a contract
//! that says what it does.
//!
//! # Decoupling model
//!
//! The crate owns its entire vocabulary, so it depends on no application
//! core, and it performs no I/O: [`JmapSyncService`] and [`OutboxService`]
//! are state machines that name the next action as a plain value and take
//! its outcome as a plain value. Storage, network, time and the parsing of
//! messages belong to the host; hosts keep their own MIME model, which the
//! engines build through a callback and never inspect. SASL mechanism
//! implementations are injected; only the step-wise session seam
//! ([`SaslSession`]) is defined here.

pub mod clock;
pub mod config;
pub mod error;
pub mod event;
pub mod hex;
pub mod ingest;
pub mod jmap;
pub mod jmap_parse;
pub mod jmap_sync;
pub mod json;
pub mod model;
pub mod outbox_service;
pub mod sanitize;
pub mod sasl;
pub mod secrets;
pub mod show;
pub mod store;
pub mod sync;
pub mod text;

pub use clock::{FakeClock, SyncClock, SystemClock};
pub use config::SyncConfig;
pub use error::{StoreError, SyncError, SyncResult};
pub use event::EngineEvent;
pub use jmap_sync::JmapSyncService;
pub use model::{
    AccountId, Address, BlobHash, ConnectionState, Flag, FolderDelta, FolderId, FolderRole,
    FolderSummary, MessageId, MessagePage, MessageSummary, OutboxId, SortDir, SortField, SortSpec,
    Window,
};
pub use outbox_service::{backoff_for, OutboxService};
pub use sasl::{SaslMechanism, SaslSession};
pub use secrets::SecretString;
pub use store::{
    FolderRow, IngestBatch, IngestMessage, IngestStats, NewFolder, OutboxEnvelope, OutboxRow,
};
pub use sync::SyncService;
