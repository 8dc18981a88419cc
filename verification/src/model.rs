//! Typed identifiers and shared value objects crossing the sync seam.
//!
//! All entity IDs are UUIDs carried as newtypes over their big-endian number:
//! no raw strings or `u64` cross trait boundaries. [`BlobHash`] is a SHA-256
//! digest carried in lowercase hex form.

use vstd::prelude::*;
use vstd::string::StringExecFns;

use crate::hex;
use crate::show::{show_tuple, tuple_text};
use crate::text::{ascii_lower, ascii_lower_char, chars_of, text_of};

verus! {

/// Account identity.
#[derive(Clone, Copy, PartialEq, Eq, Structural, Hash, PartialOrd, Ord)]
pub struct AccountId(u128);

impl AccountId {
    /// The number of the underlying UUID.
    pub closed spec fn spec_uuid(self) -> u128 {
        self.0
    }

    /// Wraps an existing UUID, given as its big-endian number.
    #[must_use]
    pub fn from_uuid(id: u128) -> (r: Self)
        ensures
            r.spec_uuid() == id,
    {
        Self(id)
    }

    /// Returns the underlying UUID as its big-endian number.
    #[must_use]
    pub fn as_uuid(&self) -> (r: u128)
        ensures
            r == self.spec_uuid(),
    {
        self.0
    }

    /// Parses a textual (UUID) form.
    #[must_use]
    pub fn parse(s: &str) -> (r: Option<Self>)
        ensures
            r is Some <==> hex::uuid_value(s@) is Some,
            r matches Some(id) ==> hex::uuid_value(s@) == Some(id.spec_uuid()),
    {
        match hex::parse_uuid(s) {
            Some(id) => Some(Self(id)),
            None => None,
        }
    }

    /// The hyphenated textual form.
    #[must_use]
    pub fn to_string(&self) -> (r: String)
        ensures
            r@ == hex::uuid_hyphenated(self.spec_uuid()),
    {
        hex::uuid_text(self.0)
    }

    /// What debug output shows: the UUID in the name of the type, over
    /// several lines where `pretty`.
    #[must_use]
    pub fn debug_text(&self, pretty: bool) -> (r: String)
        ensures
            r@ == tuple_text("AccountId"@, hex::uuid_hyphenated(self.spec_uuid()), pretty),
    {
        show_tuple("AccountId", self.to_string().as_str(), pretty)
    }

    /// Parsing the textual form of an identity gives back that identity.
    pub proof fn law_text_reads_back(id: Self)
        ensures
            hex::uuid_value(hex::uuid_hyphenated(id.spec_uuid())) == Some(id.spec_uuid()),
            forall|other: Self| #[trigger] other.spec_uuid() == id.spec_uuid() ==> other == id,
    {
        hex::law_uuid_reads_back(id.spec_uuid());
    }
}

impl std::fmt::Debug for AccountId {
    fn fmt(&self, f: &mut std::fmt::Formatter<'_>) -> std::fmt::Result {
        let pretty = f.alternate();
        f.write_str(self.debug_text(pretty).as_str())
    }
}

/// Folder identity.
#[derive(Clone, Copy, PartialEq, Eq, Structural, Hash, PartialOrd, Ord)]
pub struct FolderId(u128);

impl FolderId {
    /// The number of the underlying UUID.
    pub closed spec fn spec_uuid(self) -> u128 {
        self.0
    }

    /// Wraps an existing UUID, given as its big-endian number.
    #[must_use]
    pub fn from_uuid(id: u128) -> (r: Self)
        ensures
            r.spec_uuid() == id,
    {
        Self(id)
    }

    /// Returns the underlying UUID as its big-endian number.
    #[must_use]
    pub fn as_uuid(&self) -> (r: u128)
        ensures
            r == self.spec_uuid(),
    {
        self.0
    }

    /// Parses a textual (UUID) form.
    #[must_use]
    pub fn parse(s: &str) -> (r: Option<Self>)
        ensures
            r is Some <==> hex::uuid_value(s@) is Some,
            r matches Some(id) ==> hex::uuid_value(s@) == Some(id.spec_uuid()),
    {
        match hex::parse_uuid(s) {
            Some(id) => Some(Self(id)),
            None => None,
        }
    }

    /// The hyphenated textual form.
    #[must_use]
    pub fn to_string(&self) -> (r: String)
        ensures
            r@ == hex::uuid_hyphenated(self.spec_uuid()),
    {
        hex::uuid_text(self.0)
    }

    /// What debug output shows: the UUID in the name of the type, over
    /// several lines where `pretty`.
    #[must_use]
    pub fn debug_text(&self, pretty: bool) -> (r: String)
        ensures
            r@ == tuple_text("FolderId"@, hex::uuid_hyphenated(self.spec_uuid()), pretty),
    {
        show_tuple("FolderId", self.to_string().as_str(), pretty)
    }

    /// Parsing the textual form of an identity gives back that identity.
    pub proof fn law_text_reads_back(id: Self)
        ensures
            hex::uuid_value(hex::uuid_hyphenated(id.spec_uuid())) == Some(id.spec_uuid()),
            forall|other: Self| #[trigger] other.spec_uuid() == id.spec_uuid() ==> other == id,
    {
        hex::law_uuid_reads_back(id.spec_uuid());
    }
}

impl std::fmt::Debug for FolderId {
    fn fmt(&self, f: &mut std::fmt::Formatter<'_>) -> std::fmt::Result {
        let pretty = f.alternate();
        f.write_str(self.debug_text(pretty).as_str())
    }
}

/// Message identity.
#[derive(Clone, Copy, PartialEq, Eq, Structural, Hash, PartialOrd, Ord)]
pub struct MessageId(u128);

impl MessageId {
    /// The number of the underlying UUID.
    pub closed spec fn spec_uuid(self) -> u128 {
        self.0
    }

    /// Wraps an existing UUID, given as its big-endian number.
    #[must_use]
    pub fn from_uuid(id: u128) -> (r: Self)
        ensures
            r.spec_uuid() == id,
    {
        Self(id)
    }

    /// Returns the underlying UUID as its big-endian number.
    #[must_use]
    pub fn as_uuid(&self) -> (r: u128)
        ensures
            r == self.spec_uuid(),
    {
        self.0
    }

    /// Parses a textual (UUID) form.
    #[must_use]
    pub fn parse(s: &str) -> (r: Option<Self>)
        ensures
            r is Some <==> hex::uuid_value(s@) is Some,
            r matches Some(id) ==> hex::uuid_value(s@) == Some(id.spec_uuid()),
    {
        match hex::parse_uuid(s) {
            Some(id) => Some(Self(id)),
            None => None,
        }
    }

    /// The hyphenated textual form.
    #[must_use]
    pub fn to_string(&self) -> (r: String)
        ensures
            r@ == hex::uuid_hyphenated(self.spec_uuid()),
    {
        hex::uuid_text(self.0)
    }

    /// What debug output shows: the UUID in the name of the type, over
    /// several lines where `pretty`.
    #[must_use]
    pub fn debug_text(&self, pretty: bool) -> (r: String)
        ensures
            r@ == tuple_text("MessageId"@, hex::uuid_hyphenated(self.spec_uuid()), pretty),
    {
        show_tuple("MessageId", self.to_string().as_str(), pretty)
    }

    /// Parsing the textual form of an identity gives back that identity.
    pub proof fn law_text_reads_back(id: Self)
        ensures
            hex::uuid_value(hex::uuid_hyphenated(id.spec_uuid())) == Some(id.spec_uuid()),
            forall|other: Self| #[trigger] other.spec_uuid() == id.spec_uuid() ==> other == id,
    {
        hex::law_uuid_reads_back(id.spec_uuid());
    }
}

impl std::fmt::Debug for MessageId {
    fn fmt(&self, f: &mut std::fmt::Formatter<'_>) -> std::fmt::Result {
        let pretty = f.alternate();
        f.write_str(self.debug_text(pretty).as_str())
    }
}

/// Outbox entry identity.
#[derive(Clone, Copy, PartialEq, Eq, Structural, Hash, PartialOrd, Ord)]
pub struct OutboxId(u128);

impl OutboxId {
    /// The number of the underlying UUID.
    pub closed spec fn spec_uuid(self) -> u128 {
        self.0
    }

    /// Wraps an existing UUID, given as its big-endian number.
    #[must_use]
    pub fn from_uuid(id: u128) -> (r: Self)
        ensures
            r.spec_uuid() == id,
    {
        Self(id)
    }

    /// Returns the underlying UUID as its big-endian number.
    #[must_use]
    pub fn as_uuid(&self) -> (r: u128)
        ensures
            r == self.spec_uuid(),
    {
        self.0
    }

    /// Parses a textual (UUID) form.
    #[must_use]
    pub fn parse(s: &str) -> (r: Option<Self>)
        ensures
            r is Some <==> hex::uuid_value(s@) is Some,
            r matches Some(id) ==> hex::uuid_value(s@) == Some(id.spec_uuid()),
    {
        match hex::parse_uuid(s) {
            Some(id) => Some(Self(id)),
            None => None,
        }
    }

    /// The hyphenated textual form.
    #[must_use]
    pub fn to_string(&self) -> (r: String)
        ensures
            r@ == hex::uuid_hyphenated(self.spec_uuid()),
    {
        hex::uuid_text(self.0)
    }

    /// What debug output shows: the UUID in the name of the type, over
    /// several lines where `pretty`.
    #[must_use]
    pub fn debug_text(&self, pretty: bool) -> (r: String)
        ensures
            r@ == tuple_text("OutboxId"@, hex::uuid_hyphenated(self.spec_uuid()), pretty),
    {
        show_tuple("OutboxId", self.to_string().as_str(), pretty)
    }

    /// Parsing the textual form of an identity gives back that identity.
    pub proof fn law_text_reads_back(id: Self)
        ensures
            hex::uuid_value(hex::uuid_hyphenated(id.spec_uuid())) == Some(id.spec_uuid()),
            forall|other: Self| #[trigger] other.spec_uuid() == id.spec_uuid() ==> other == id,
    {
        hex::law_uuid_reads_back(id.spec_uuid());
    }
}

impl std::fmt::Debug for OutboxId {
    fn fmt(&self, f: &mut std::fmt::Formatter<'_>) -> std::fmt::Result {
        let pretty = f.alternate();
        f.write_str(self.debug_text(pretty).as_str())
    }
}

/// SHA-256 content hash of a blob in the content-addressed store, carried as
/// lowercase hex.
#[derive(PartialEq, Eq, Hash, PartialOrd, Ord)]
pub struct BlobHash(String);

/// Whether `s` is 64 hexadecimal digits in lower case.
pub open spec fn is_digest_hex(s: Seq<char>) -> bool {
    exists|digest: Seq<u8>| digest.len() == 32 && s == #[trigger] hex::hex_of(digest)
}

impl View for BlobHash {
    type V = Seq<char>;

    closed spec fn view(&self) -> Seq<char> {
        self.0@
    }
}

impl std::fmt::Debug for BlobHash {
    fn fmt(&self, f: &mut std::fmt::Formatter<'_>) -> std::fmt::Result {
        f.write_str(self.debug_text().as_str())
    }
}

impl Clone for BlobHash {
    fn clone(&self) -> (r: Self)
        ensures
            r@ == self@,
            r == *self,
    {
        proof {
            use_type_invariant(self);
        }
        Self(self.0.clone())
    }
}

impl BlobHash {
    #[verifier::type_invariant]
    spec fn well_formed(self) -> bool {
        is_digest_hex(self.0@)
    }

    /// Wraps a raw 32-byte digest.
    #[must_use]
    pub fn from_digest(digest: &[u8; 32]) -> (r: Self)
        ensures
            r@ == hex::hex_of(digest@),
    {
        Self(Self::encode_hex(digest.as_slice()))
    }

    /// Parses a 64-char lowercase-or-uppercase hex digest.
    #[must_use]
    pub fn parse_hex(s: &str) -> (r: Option<Self>)
        ensures
            r is Some <==> s@.len() == 64 && hex::is_hex(s@),
            r matches Some(hash) ==> hash@ == ascii_lower(s@),
    {
        let bytes = Self::decode_hex(s)?;
        if bytes.len() != 32 {
            return None;
        }
        proof {
            hex::law_hex_normalizes_case(s@);
            assert(hex::hex_of(bytes@) == ascii_lower(s@));
        }
        Some(Self(Self::encode_hex(bytes.as_slice())))
    }

    /// Lowercase hex form (the on-disk representation).
    #[must_use]
    pub fn to_hex(&self) -> (r: &str)
        ensures
            r@ == self@,
            is_digest_hex(r@),
            r@.len() == 64,
    {
        proof {
            use_type_invariant(self);
        }
        self.0.as_str()
    }

    /// Two-level shard prefix (`ab/cd`) used by content-store layouts.
    #[must_use]
    pub fn shard_prefix(&self) -> (r: String)
        ensures
            r@ == self@.subrange(0, 2) + seq!['/'] + self@.subrange(2, 4),
    {
        proof {
            use_type_invariant(self);
        }
        let chars = chars_of(self.0.as_str());
        let mut out = text_of(&chars, 0, 2);
        out.push('/');
        out.append(text_of(&chars, 2, 4).as_str());
        assert(out@ =~= self@.subrange(0, 2) + seq!['/'] + self@.subrange(2, 4));
        out
    }

    /// The textual form: the hex digest itself.
    #[must_use]
    pub fn to_string(&self) -> (r: String)
        ensures
            r@ == self@,
    {
        self.0.clone()
    }

    /// What debug output shows.
    #[must_use]
    pub fn debug_text(&self) -> (r: String)
        ensures
            r@ == tuple_text("BlobHash"@, self@, false),
    {
        show_tuple("BlobHash", self.to_hex(), false)
    }

    /// Writes bytes as lower-case hexadecimal text.
    pub fn encode_hex(bytes: &[u8]) -> (r: String)
        ensures
            r@ == hex::hex_of(bytes@),
    {
        hex::encode_hex(bytes)
    }

    /// Reads hexadecimal text of either case.
    pub fn decode_hex(s: &str) -> (r: Option<Vec<u8>>)
        ensures
            r is Some <==> hex::hex_bytes(s@) is Some,
            r matches Some(bytes) ==> hex::hex_bytes(s@) == Some(bytes@),
    {
        hex::decode_hex(s)
    }
}

/// Parsing the hex form of a digest's hash is accepted and gives back that
/// hash.
pub proof fn law_blob_hash_reads_back(digest: Seq<u8>)
    requires
        digest.len() == 32,
    ensures
        hex::hex_of(digest).len() == 64,
        hex::is_hex(hex::hex_of(digest)),
        ascii_lower(hex::hex_of(digest)) == hex::hex_of(digest),
{
    hex::law_hex_reads_back(digest);
    hex::law_hex_normalizes_case(hex::hex_of(digest));
}

/// The case in which a digest is written does not matter: texts equal up to
/// ASCII case are accepted or refused together and name the same hash.
pub proof fn law_blob_hash_ignores_case(s: Seq<char>, t: Seq<char>)
    requires
        ascii_lower(s) == ascii_lower(t),
    ensures
        s.len() == t.len(),
        hex::is_hex(s) <==> hex::is_hex(t),
{
    assert(ascii_lower(s).len() == s.len() && ascii_lower(t).len() == t.len());
    assert forall|i: int| 0 <= i < s.len() implies (hex::hex_digit(#[trigger] s[i]) is Some
        <==> hex::hex_digit(t[i]) is Some) by {
        assert(ascii_lower(s)[i] == ascii_lower(t)[i]);
        assert(ascii_lower(s)[i] == ascii_lower_char(s[i]));
        assert(ascii_lower(t)[i] == ascii_lower_char(t[i]));
    }
    assert forall|i: int| 0 <= i < t.len() implies (hex::hex_digit(#[trigger] t[i]) is Some
        <==> hex::hex_digit(s[i]) is Some) by {
        assert(ascii_lower(s)[i] == ascii_lower(t)[i]);
        assert(ascii_lower(s)[i] == ascii_lower_char(s[i]));
        assert(ascii_lower(t)[i] == ascii_lower_char(t[i]));
    }
}

/// Distinct digests have distinct hashes.
pub proof fn law_blob_hash_is_injective(a: Seq<u8>, b: Seq<u8>)
    requires
        hex::hex_of(a) == hex::hex_of(b),
    ensures
        a == b,
{
    hex::law_hex_reads_back(a);
    hex::law_hex_reads_back(b);
}

/// IMAP-style flag.
#[derive(Clone, Debug, PartialEq, Eq)]
pub enum Flag {
    /// `\Seen`
    Seen,
    /// `\Answered`
    Answered,
    /// `\Flagged`
    Flagged,
    /// `\Deleted`
    Deleted,
    /// `\Draft`
    Draft,
    /// Custom keyword.
    Custom(String),
}

/// Account connection state machine states.
#[derive(Clone, Copy, Debug, PartialEq, Eq, Structural)]
pub enum ConnectionState {
    /// No connection attempt active.
    Disconnected,
    /// TCP/TLS handshake in progress.
    Connecting,
    /// Credentials being exchanged.
    Authenticating,
    /// Hierarchy/delta sync running.
    Syncing,
    /// IDLE loop waiting for pushes.
    Idle,
    /// User-requested offline mode.
    OfflineMode,
}

/// Recognized folder roles.
#[derive(Clone, Copy, Debug, PartialEq, Eq, Structural)]
pub enum FolderRole {
    /// Inbox.
    Inbox,
    /// Sent mail.
    Sent,
    /// Drafts.
    Drafts,
    /// Trash.
    Trash,
    /// Archive.
    Archive,
    /// Junk/spam.
    Junk,
}

/// Folder delta delivered with [`crate::event::EngineEvent::MailArrived`].
#[derive(Clone, Copy, Debug, PartialEq, Eq, Structural)]
pub struct FolderDelta {
    /// New messages.
    pub new: u32,
    /// Total after the change.
    pub total: u64,
    /// Unread after the change.
    pub unread: u64,
}

impl Default for FolderDelta {
    fn default() -> (r: Self)
        ensures
            r == (FolderDelta { new: 0, total: 0, unread: 0 }),
    {
        FolderDelta { new: 0, total: 0, unread: 0 }
    }
}

/// Folder summary for listings.
#[derive(Clone, Debug, PartialEq, Eq)]
pub struct FolderSummary {
    /// Folder id.
    pub id: FolderId,
    /// Owning account.
    pub account: AccountId,
    /// Server-side name (e.g. `INBOX/Sent`).
    pub remote_name: String,
    /// Canonical role, if recognized.
    pub role: Option<FolderRole>,
    /// Hierarchy delimiter.
    pub delimiter: String,
    /// Unread count, maintained locally.
    pub unread: u64,
    /// Total messages, maintained locally.
    pub total: u64,
}

/// Email address with optional display name.
#[derive(Clone, Debug, PartialEq, Eq)]
pub struct Address {
    /// Display name, if any.
    pub name: Option<String>,
    /// Bare address (`local@domain`).
    pub email: String,
}

impl Address {
    /// Builds an address with no display name.
    #[must_use]
    pub fn bare(email: &str) -> (r: Self)
        ensures
            r.name is None,
            r.email@ == email@,
    {
        Self { name: None, email: email.to_string() }
    }
}

/// Window into a sorted result set.
#[derive(Clone, Copy, Debug, PartialEq, Eq, Structural)]
pub struct Window {
    /// Zero-based index of the first row.
    pub offset: u64,
    /// Maximum rows returned.
    pub limit: u64,
}

impl Default for Window {
    fn default() -> (r: Self)
        ensures
            r == (Window { offset: 0, limit: 50 }),
    {
        Self { offset: 0, limit: 50 }
    }
}

/// Sort specification for message listings.
#[derive(Clone, Copy, Debug, PartialEq, Eq, Structural)]
pub struct SortSpec {
    /// Field to sort by.
    pub field: SortField,
    /// Direction.
    pub dir: SortDir,
}

impl Default for SortSpec {
    fn default() -> (r: Self)
        ensures
            r == (SortSpec { field: SortField::Date, dir: SortDir::Desc }),
    {
        Self { field: SortField::Date, dir: SortDir::Desc }
    }
}

/// Sortable message fields.
#[derive(Clone, Copy, Debug, PartialEq, Eq, Structural)]
pub enum SortField {
    /// `internal_date`.
    Date,
    /// Subject text.
    Subject,
    /// First from-address.
    Sender,
    /// IMAP UID.
    Uid,
}

/// Sort direction.
#[derive(Clone, Copy, Debug, PartialEq, Eq, Structural)]
pub enum SortDir {
    /// Ascending.
    Asc,
    /// Descending.
    Desc,
}

/// Message metadata as the store lists it.
#[derive(Clone, Debug, PartialEq, Eq)]
pub struct MessageSummary {
    /// Message id.
    pub id: MessageId,
    /// Owning folder.
    pub folder: FolderId,
    /// IMAP UID.
    pub uid: u32,
    /// `internal_date`, unix ms.
    pub internal_date: i64,
    /// Server flags.
    pub flags: Vec<Flag>,
    /// Subject.
    pub subject: Option<String>,
    /// First from-address.
    pub from: Option<Address>,
    /// Raw size in bytes.
    pub size: u64,
    /// `\Seen` shortcut.
    pub is_read: bool,
    /// `\Flagged` shortcut.
    pub is_flagged: bool,
    /// `\Answered` shortcut.
    pub is_answered: bool,
}

/// One page of messages plus the total result count.
#[derive(Clone, Debug)]
pub struct MessagePage {
    /// Rows in this window.
    pub items: Vec<MessageSummary>,
    /// Total rows matching the query (before windowing).
    pub total: u64,
}

impl Default for MessagePage {
    fn default() -> (r: Self)
        ensures
            r.items@.len() == 0,
            r.total == 0,
    {
        Self { items: Vec::new(), total: 0 }
    }
}

}
