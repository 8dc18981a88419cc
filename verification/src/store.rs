//! Storage vocabulary: the values that the sync engines hand to the host's
//! store and take from it. The engines never touch a concrete storage
//! backend.

use vstd::prelude::*;

use crate::model::{AccountId, Address, BlobHash, Flag, FolderId, FolderRole, OutboxId};
use crate::text::views;

verus! {

/// New-folder payload.
#[derive(Clone, Debug)]
pub struct NewFolder {
    /// Owning account (must exist in the host's store).
    pub account: AccountId,
    /// Server name.
    pub remote_name: String,
    /// Attributes (e.g. `\\HasNoChildren`).
    pub attributes: Vec<String>,
    /// Canonical role, if recognized.
    pub role: Option<FolderRole>,
    /// Hierarchy delimiter.
    pub delimiter: String,
    /// `UIDVALIDITY` (0 when not yet selected).
    pub uid_validity: u32,
    /// `HIGHESTMODSEQ` (0 when unknown).
    pub highest_modseq: u64,
}

/// The contents of a [`NewFolder`].
#[verifier::ext_equal]
pub struct NewFolderView {
    pub account: AccountId,
    pub remote_name: Seq<char>,
    pub attributes: Seq<Seq<char>>,
    pub role: Option<FolderRole>,
    pub delimiter: Seq<char>,
    pub uid_validity: u32,
    pub highest_modseq: u64,
}

impl View for NewFolder {
    type V = NewFolderView;

    open spec fn view(&self) -> NewFolderView {
        NewFolderView {
            account: self.account,
            remote_name: self.remote_name@,
            attributes: views(self.attributes@),
            role: self.role,
            delimiter: self.delimiter@,
            uid_validity: self.uid_validity,
            highest_modseq: self.highest_modseq,
        }
    }
}

/// Folder row as stored.
#[derive(Clone, Debug)]
pub struct FolderRow {
    /// Folder id.
    pub id: FolderId,
    /// Owning account.
    pub account: AccountId,
    /// Server name.
    pub remote_name: String,
    /// Attributes.
    pub attributes: Vec<String>,
    /// Canonical role.
    pub role: Option<FolderRole>,
    /// Hierarchy delimiter.
    pub delimiter: String,
    /// IMAP `UIDVALIDITY` cursor.
    pub uid_validity: u32,
    /// CONDSTORE `HIGHESTMODSEQ` cursor.
    pub highest_modseq: u64,
}

/// One message ready for ingestion.
///
/// `P` is the host's parsed-message model; the engines construct it through
/// the injected parser and never inspect it.
#[derive(Clone, Debug)]
pub struct IngestMessage<P> {
    /// Destination folder.
    pub folder: FolderId,
    /// IMAP UID.
    pub uid: u32,
    /// `INTERNALDATE` (unix ms).
    pub internal_date: i64,
    /// Server flags.
    pub flags: Vec<Flag>,
    /// Parsed message (host-defined MIME model).
    pub parsed: P,
    /// Raw message blob (already in the content store; hash only).
    pub raw_blob: Option<BlobHash>,
    /// Raw size in bytes.
    pub raw_size: u64,
}

/// Ingestion batch: applied in one transaction.
#[derive(Clone, Debug)]
pub struct IngestBatch<P> {
    /// Messages.
    pub messages: Vec<IngestMessage<P>>,
}

impl<P> Default for IngestBatch<P> {
    fn default() -> (r: Self)
        ensures
            r.messages@.len() == 0,
    {
        Self { messages: Vec::new() }
    }
}

/// Ingestion outcome counters.
#[derive(Clone, Copy, Debug, PartialEq, Eq, Structural)]
pub struct IngestStats {
    /// New rows.
    pub inserted: u64,
    /// Updated rows.
    pub updated: u64,
}

impl Default for IngestStats {
    fn default() -> (r: Self)
        ensures
            r == (IngestStats { inserted: 0, updated: 0 }),
    {
        Self { inserted: 0, updated: 0 }
    }
}

/// Envelope persisted beside the outbox raw blob.
#[derive(Clone, Debug)]
pub struct OutboxEnvelope {
    /// From.
    pub from: Address,
    /// To.
    pub to: Vec<Address>,
    /// Cc.
    pub cc: Vec<Address>,
    /// Bcc.
    pub bcc: Vec<Address>,
    /// Subject.
    pub subject: String,
}

/// Outbox row as returned to the outbox service.
#[derive(Clone, Debug)]
pub struct OutboxRow {
    /// Entry id.
    pub id: OutboxId,
    /// Owning account.
    pub account: AccountId,
    /// Content-store hash of the raw RFC 5322 bytes.
    pub raw_blob: BlobHash,
    /// Envelope.
    pub envelope: OutboxEnvelope,
    /// Retry counter.
    pub retry_count: u32,
    /// Last error summary.
    pub last_error: Option<String>,
    /// Creation time.
    pub created_at: i64,
}

/// What a new folder is seen as: its own fields.
pub proof fn law_new_folders_keep_their_fields(folder: NewFolder)
    ensures
        folder@.account == folder.account,
        folder@.remote_name == folder.remote_name@,
        folder@.attributes.len() == folder.attributes@.len(),
        forall|i: int|
            0 <= i < folder.attributes@.len() ==> #[trigger] folder@.attributes[i]
                == folder.attributes@[i]@,
        folder@.role == folder.role,
        folder@.delimiter == folder.delimiter@,
        folder@.uid_validity == folder.uid_validity,
        folder@.highest_modseq == folder.highest_modseq,
{
}

}
