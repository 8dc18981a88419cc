//! `JmapSyncService` (per account): JMAP sync as a state machine. Discovers
//! the JMAP session, syncs the folder hierarchy via `Mailbox/get`, ingests
//! messages via `Email/query` + `Email/get`, and supports delta sync through
//! JMAP state tokens.
//!
//! The service performs no I/O. It names the next action as a plain value
//! ([`SyncAction`]); the host performs it and answers with a [`SyncEvent`].

use vstd::arithmetic::power2::{lemma2_to64, lemma_pow2_unfold, pow2};
use vstd::prelude::*;

use crate::clock::SyncClock;
use crate::error::{prefixed, StoreError, SyncError, SyncErrorView};
use crate::event::{EngineEvent, EngineEventView};
use crate::ingest::{batch_stores, ingest_batch};
use crate::jmap::{
    bearer, email_get_call, email_query_call, exchange_error, mail_capabilities, mailbox_get_call,
    ApiCall, DiscoveryCall, HttpReply, JmapClient, JmapResponse, JmapSession,
};
use crate::jmap_parse::{
    email_of, email_views, fault_error, jmap_role, mailbox_of, mailbox_views, method_list,
    parse_email_get, parse_mailbox_get, role_attributes, role_from_jmap, EmailView,
    MailboxView, ParsedMailbox,
};
use crate::json::{json_views, JsonView};
use crate::model::{
    AccountId, ConnectionState, FolderDelta, FolderId, FolderRole, FolderSummary,
};
use crate::secrets::SecretString;
use crate::store::{FolderRow, IngestBatch, IngestStats, NewFolder, NewFolderView};
use crate::text::{
    decimal, decimal_text, law_decimal_reads_back, opt_view, parse_u64, same_text,
    unsigned_value, views,
};

verus! {

/// First reconnect delay, in milliseconds.
pub const FIRST_BACKOFF_MS: u64 = 250;

/// Longest reconnect delay, in milliseconds.
pub const LONGEST_BACKOFF_MS: u64 = 300_000;

/// Pause between two polling passes, in milliseconds.
pub const POLL_INTERVAL_MS: u64 = 300_000;

/// Time limit of one HTTP exchange, in milliseconds.
pub const HTTP_TIMEOUT_MS: u64 = 30_000;

/// Most messages that one query asks for.
pub const QUERY_LIMIT: u32 = 256;

/// What the service waits for: the answer to the action it named last.
#[derive(Clone, Copy, Debug, PartialEq, Eq, Structural)]
pub enum SyncPhase {
    /// Whether the service is cancelled, before a cycle.
    CycleGate,
    /// `Connecting` announced.
    Connecting,
    /// Session discovered.
    Discovering,
    /// `Authenticating` announced.
    Authenticating,
    /// `Syncing` announced, before the hierarchy sync.
    Syncing,
    /// `Mailbox/get` answered.
    FetchingMailboxes,
    /// Stored folders listed, before the upserts.
    ReadingTree,
    /// One mailbox upserted.
    Upserting,
    /// Folders listed.
    ListingFolders,
    /// One folder row loaded.
    LoadingFolder,
    /// `FolderTreeChanged` sent.
    AnnouncingTree,
    /// Whether the service is cancelled, before a folder.
    FolderGate,
    /// `Email/query` + `Email/get` answered.
    Querying,
    /// Batch ingested.
    Ingesting,
    /// Folder summaries listed.
    Summarizing,
    /// `MailArrived` sent.
    AnnouncingMail,
    /// Cursor stored.
    StoringCursor,
    /// Polling interval over.
    PollPause,
    /// `Syncing` announced, before a polling pass.
    PollSyncing,
    /// `Disconnected` announced.
    Disconnecting,
    /// Reconnect delay over.
    BackingOff,
    /// Nothing: the service has stopped.
    Stopped,
}

/// An answer from the host.
#[derive(Debug)]
pub enum SyncEvent {
    /// A best-effort action was performed, whatever came of it.
    Done,
    /// Whether the service is cancelled.
    Cancelled(bool),
    /// No HTTP client could be built: what went wrong.
    NoHttpClient(String),
    /// How session discovery ended.
    Discovered(HttpReply<JmapSession>),
    /// How an API call ended.
    Responded(HttpReply<JmapResponse>),
    /// The folders of the account.
    Folders(Result<Vec<FolderSummary>, StoreError>),
    /// One folder row.
    Folder(Result<FolderRow, StoreError>),
    /// Whether the bus took the event.
    Delivered(bool),
    /// What became of the batch.
    Ingested(Result<IngestStats, StoreError>),
    /// A pause is over: cut short by cancellation, or in full.
    Woken {
        /// Whether the service was cancelled meanwhile.
        cancelled: bool,
    },
}

/// What the host is to do next.
#[derive(Debug)]
pub enum SyncAction<P> {
    /// Say whether the service is cancelled.
    CheckCancelled,
    /// Store the connection state and send the event, both best-effort.
    Announce {
        /// New connection state.
        state: ConnectionState,
        /// The event that tells of it.
        event: EngineEvent,
    },
    /// Build an HTTP client with the time limit given and discover the
    /// session.
    Discover {
        /// The exchange.
        call: DiscoveryCall,
        /// Time limit of this and each later exchange, in milliseconds.
        timeout_ms: u64,
    },
    /// Perform an API call.
    Call(ApiCall),
    /// Upsert a folder, best-effort.
    Upsert(NewFolder),
    /// List the folders of the account.
    ListFolders(AccountId),
    /// Load one folder row.
    LoadFolder(FolderId),
    /// Send an event and say whether the bus took it.
    Emit(EngineEvent),
    /// Ingest a batch.
    Ingest(IngestBatch<P>),
    /// Store the sync cursors of a folder, best-effort.
    StoreCursor {
        /// Folder.
        folder: FolderId,
        /// `UIDVALIDITY` cursor.
        uid_validity: u32,
        /// State-token cursor.
        highest_modseq: Option<u64>,
    },
    /// Report the failure of the cycle; store the state `Disconnected` and
    /// send the event, both best-effort.
    Disconnect {
        /// Why the cycle failed.
        error: SyncError,
        /// The event that tells of the new state.
        event: EngineEvent,
    },
    /// Pause, unless cancelled meanwhile.
    Wait {
        /// How long, in milliseconds.
        ms: u64,
    },
    /// Nothing: the service has stopped.
    Stop,
}

/// The contents of a [`SyncAction`]; a batch is shown by the messages that it
/// stores.
#[verifier::ext_equal]
pub enum SyncActionView {
    CheckCancelled,
    Announce { state: ConnectionState, event: EngineEventView },
    Discover { url: Seq<char>, authorization: Seq<char>, timeout_ms: u64 },
    Call {
        url: Seq<char>,
        authorization: Seq<char>,
        using: Seq<Seq<char>>,
        calls: Seq<JsonView>,
        since_state: Option<Seq<char>>,
    },
    Upsert(NewFolderView),
    ListFolders(AccountId),
    LoadFolder(FolderId),
    Emit(EngineEventView),
    Ingest { folder: FolderId, emails: Seq<EmailView> },
    StoreCursor { folder: FolderId, uid_validity: u32, highest_modseq: Option<u64> },
    Disconnect { error: SyncErrorView, event: EngineEventView },
    Wait { ms: u64 },
    Stop,
}

impl<P> SyncAction<P> {
    /// The contents of the action, unless it hands over a batch.
    pub open spec fn shown(self) -> Option<SyncActionView> {
        match self {
            SyncAction::CheckCancelled => Some(SyncActionView::CheckCancelled),
            SyncAction::Announce { state, event } => Some(
                SyncActionView::Announce { state, event: event@ },
            ),
            SyncAction::Discover { call, timeout_ms } => Some(
                SyncActionView::Discover {
                    url: call.url@,
                    authorization: call.authorization@,
                    timeout_ms,
                },
            ),
            SyncAction::Call(call) => Some(
                SyncActionView::Call {
                    url: call.url@,
                    authorization: call.authorization@,
                    using: views(call.request.using@),
                    calls: json_views(call.request.method_calls@),
                    since_state: opt_view(call.request.since_state),
                },
            ),
            SyncAction::Upsert(folder) => Some(SyncActionView::Upsert(folder@)),
            SyncAction::ListFolders(account) => Some(SyncActionView::ListFolders(account)),
            SyncAction::LoadFolder(folder) => Some(SyncActionView::LoadFolder(folder)),
            SyncAction::Emit(event) => Some(SyncActionView::Emit(event@)),
            SyncAction::Ingest(_) => None,
            SyncAction::StoreCursor { folder, uid_validity, highest_modseq } => Some(
                SyncActionView::StoreCursor { folder, uid_validity, highest_modseq },
            ),
            SyncAction::Disconnect { error, event } => Some(
                SyncActionView::Disconnect { error: error@, event: event@ },
            ),
            SyncAction::Wait { ms } => Some(SyncActionView::Wait { ms }),
            SyncAction::Stop => Some(SyncActionView::Stop),
        }
    }
}

/// Whether `action` is the one that `view` shows: of equal contents, or a
/// batch that stores the messages shown.
pub open spec fn action_is<P, F: Fn(&[u8]) -> P, C: SyncClock + ?Sized>(
    action: SyncAction<P>,
    view: SyncActionView,
    parse: F,
    clock: &C,
) -> bool {
    match action {
        SyncAction::Ingest(batch) => view matches SyncActionView::Ingest { folder, emails }
            && batch_stores(batch, emails, folder, parse, clock),
        _ => action.shown() == Some(view),
    }
}

/// The state of the service.
#[verifier::ext_equal]
pub struct SyncState {
    /// Account.
    pub account: AccountId,
    /// Account host.
    pub host: Seq<char>,
    /// Bearer token.
    pub token: Seq<char>,
    /// What the service waits for.
    pub phase: SyncPhase,
    /// The next reconnect delay, in milliseconds.
    pub backoff_ms: u64,
    /// API URL of the discovered session.
    pub api_url: Option<Seq<char>>,
    /// Mailboxes of the hierarchy sync.
    pub mailboxes: Seq<MailboxView>,
    /// Folders whose rows are loaded.
    pub ids: Seq<FolderId>,
    /// Rows loaded so far; the folders of the pass.
    pub rows: Seq<FolderRow>,
    /// Position in `mailboxes`, `ids` or `rows`.
    pub next: nat,
    /// Whether the pass is a polling pass.
    pub polling: bool,
    /// Whether the mailboxes differ from the folders stored before them.
    pub tree_changed: bool,
    /// New messages of the stored batch.
    pub new_count: u32,
    /// State-token cursor to store after the batch.
    pub cursor: Option<u64>,
}

impl SyncState {
    /// The state of a fresh service.
    pub open spec fn fresh(account: AccountId, host: Seq<char>, token: Seq<char>) -> SyncState {
        SyncState {
            account,
            host,
            token,
            phase: SyncPhase::CycleGate,
            backoff_ms: FIRST_BACKOFF_MS,
            api_url: None,
            mailboxes: Seq::empty(),
            ids: Seq::empty(),
            rows: Seq::empty(),
            next: 0,
            polling: false,
            tree_changed: false,
            new_count: 0,
            cursor: None,
        }
    }

    /// What holds in every state: the reconnect delay stays within its
    /// bounds, a session is at hand wherever one is used, and the position
    /// points at the item in hand.
    pub open spec fn well_formed(self) -> bool {
        &&& FIRST_BACKOFF_MS <= self.backoff_ms <= LONGEST_BACKOFF_MS
        &&& match self.phase {
            SyncPhase::Authenticating
            | SyncPhase::Syncing
            | SyncPhase::FetchingMailboxes
            | SyncPhase::ReadingTree
            | SyncPhase::ListingFolders
            | SyncPhase::AnnouncingTree
            | SyncPhase::PollPause
            | SyncPhase::PollSyncing => self.api_url is Some,
            SyncPhase::Upserting => self.api_url is Some && self.next < self.mailboxes.len(),
            SyncPhase::LoadingFolder => self.api_url is Some && self.next < self.ids.len(),
            SyncPhase::FolderGate
            | SyncPhase::Querying
            | SyncPhase::Ingesting
            | SyncPhase::Summarizing
            | SyncPhase::AnnouncingMail
            | SyncPhase::StoringCursor => self.api_url is Some && self.next < self.rows.len(),
            _ => true,
        }
    }

    /// The folder in hand.
    pub open spec fn folder(self) -> FolderRow {
        self.rows[self.next as int]
    }
}

/// Whether `event` answers what a service in `phase` waits for.
pub open spec fn answers(phase: SyncPhase, event: SyncEvent) -> bool {
    match phase {
        SyncPhase::CycleGate | SyncPhase::FolderGate => event is Cancelled,
        SyncPhase::Connecting
        | SyncPhase::Authenticating
        | SyncPhase::Syncing
        | SyncPhase::Upserting
        | SyncPhase::StoringCursor
        | SyncPhase::PollSyncing
        | SyncPhase::Disconnecting => event is Done,
        SyncPhase::Discovering => event is NoHttpClient || (event matches SyncEvent::Discovered(
            reply,
        ) && reply.valid()),
        SyncPhase::FetchingMailboxes | SyncPhase::Querying => event matches SyncEvent::Responded(
            reply,
        ) && reply.valid(),
        SyncPhase::ReadingTree | SyncPhase::ListingFolders | SyncPhase::Summarizing => {
            event is Folders
        },
        SyncPhase::LoadingFolder => event is Folder,
        SyncPhase::AnnouncingTree | SyncPhase::AnnouncingMail => event is Delivered,
        SyncPhase::Ingesting => event is Ingested,
        SyncPhase::PollPause | SyncPhase::BackingOff => event is Woken,
        SyncPhase::Stopped => false,
    }
}

// ---------------------------------------------------------------------------
// Transitions
// ---------------------------------------------------------------------------

/// A state and the action that it waits for.
pub type Transition = (SyncState, SyncActionView);

/// Announces a connection state.
pub open spec fn announced(s: SyncState, phase: SyncPhase, state: ConnectionState) -> Transition {
    (
        SyncState { phase, ..s },
        SyncActionView::Announce {
            state,
            event: EngineEventView::AccountConnection { account: s.account, state },
        },
    )
}

/// The cycle ended well: the reconnect delay starts over, and the next cycle
/// begins unless the service is cancelled.
pub open spec fn cycle_ended(s: SyncState) -> Transition {
    (
        SyncState { phase: SyncPhase::CycleGate, backoff_ms: FIRST_BACKOFF_MS, ..s },
        SyncActionView::CheckCancelled,
    )
}

/// The cycle failed.
pub open spec fn cycle_failed(s: SyncState, error: SyncErrorView) -> Transition {
    (
        SyncState { phase: SyncPhase::Disconnecting, ..s },
        SyncActionView::Disconnect {
            error,
            event: EngineEventView::AccountConnection {
                account: s.account,
                state: ConnectionState::Disconnected,
            },
        },
    )
}

/// The service stopped.
pub open spec fn stopped(s: SyncState) -> Transition {
    (SyncState { phase: SyncPhase::Stopped, ..s }, SyncActionView::Stop)
}

/// An API call with the session's URL and the account's token.
pub open spec fn api_call(
    s: SyncState,
    calls: Seq<JsonView>,
    since_state: Option<Seq<char>>,
) -> SyncActionView {
    SyncActionView::Call {
        url: s.api_url->0,
        authorization: bearer(s.token),
        using: mail_capabilities(),
        calls,
        since_state,
    }
}

/// Lists the stored folders, for the first pass or a polling pass.
pub open spec fn folders_listed(s: SyncState, polling: bool) -> Transition {
    (
        SyncState { phase: SyncPhase::ListingFolders, polling, ..s },
        SyncActionView::ListFolders(s.account),
    )
}

/// The role that a mailbox has by its name.
pub open spec fn mailbox_role(mailbox: MailboxView) -> Option<FolderRole> {
    jmap_role(mailbox.name)
}

/// The folder tree that a list of mailboxes describes: names and roles.
pub open spec fn mailbox_tree(mailboxes: Seq<MailboxView>) -> Set<
    (Seq<char>, Option<FolderRole>),
> {
    mailboxes.map_values(|m: MailboxView| (m.name, mailbox_role(m))).to_set()
}

/// The folder tree that the stored folders make up: names and roles.
pub open spec fn stored_tree(stored: Seq<FolderSummary>) -> Set<(Seq<char>, Option<FolderRole>)> {
    stored.map_values(|f: FolderSummary| (f.remote_name@, f.role)).to_set()
}

/// The mailboxes are known: the stored folders are listed for comparison.
pub open spec fn tree_read(s: SyncState) -> Transition {
    (SyncState { phase: SyncPhase::ReadingTree, ..s }, SyncActionView::ListFolders(s.account))
}

/// The folder under which a mailbox is stored.
pub open spec fn folder_for(account: AccountId, mailbox: MailboxView) -> NewFolderView {
    NewFolderView {
        account,
        remote_name: mailbox.name,
        attributes: role_attributes(mailbox.role),
        role: mailbox_role(mailbox),
        delimiter: "/"@,
        uid_validity: 0,
        highest_modseq: 0,
    }
}

/// Upserts the mailbox at the position given, or lists the folders once every
/// mailbox is upserted.
pub open spec fn mailbox_upserted(s: SyncState, next: nat) -> Transition {
    if next < s.mailboxes.len() {
        (
            SyncState { phase: SyncPhase::Upserting, next, ..s },
            SyncActionView::Upsert(folder_for(s.account, s.mailboxes[next as int])),
        )
    } else {
        folders_listed(s, false)
    }
}

/// Loads the folder row at the position given, or goes on once every row is
/// loaded: a changed folder tree is told of before the first pass.
pub open spec fn row_loaded(s: SyncState, next: nat) -> Transition {
    if next < s.ids.len() {
        (
            SyncState { phase: SyncPhase::LoadingFolder, next, ..s },
            SyncActionView::LoadFolder(s.ids[next as int]),
        )
    } else if s.polling || !s.tree_changed {
        folder_taken(s, 0)
    } else {
        (
            SyncState { phase: SyncPhase::AnnouncingTree, ..s },
            SyncActionView::Emit(EngineEventView::FolderTreeChanged { account: s.account }),
        )
    }
}

/// Takes up the folder at the position given, unless cancelled, or pauses
/// once every folder is synced.
pub open spec fn folder_taken(s: SyncState, next: nat) -> Transition {
    if next < s.rows.len() {
        (SyncState { phase: SyncPhase::FolderGate, next, ..s }, SyncActionView::CheckCancelled)
    } else {
        (
            SyncState { phase: SyncPhase::PollPause, ..s },
            SyncActionView::Wait { ms: POLL_INTERVAL_MS },
        )
    }
}

/// The state token that a cursor stands for; none where no cursor is stored.
pub open spec fn state_token(cursor: u64) -> Option<Seq<char>> {
    if cursor > 0 {
        Some(decimal(cursor as nat))
    } else {
        None
    }
}

/// The cursor that a state token stands for; none where it is no number.
pub open spec fn token_cursor(token: Option<Seq<char>>) -> Option<u64> {
    match token {
        Some(text) => unsigned_value(text),
        None => None,
    }
}

/// The position of the first mailbox called `name`, from `from` on; the number
/// of mailboxes where there is none.
pub open spec fn mailbox_index(mailboxes: Seq<MailboxView>, name: Seq<char>, from: int) -> int
    decreases mailboxes.len() - from,
{
    if from >= mailboxes.len() || mailboxes[from].name == name {
        from
    } else {
        mailbox_index(mailboxes, name, from + 1)
    }
}

/// What stands for a folder in a query: the id of the mailbox of that name. A
/// folder that is no mailbox any more has no id and goes by its name.
pub open spec fn mailbox_id(mailboxes: Seq<MailboxView>, name: Seq<char>) -> Seq<char> {
    let i = mailbox_index(mailboxes, name, 0);
    if i < mailboxes.len() {
        mailboxes[i].id
    } else {
        name
    }
}

/// Asks for the newest messages of the folder in hand.
pub open spec fn queried(s: SyncState) -> Transition {
    (
        SyncState { phase: SyncPhase::Querying, ..s },
        api_call(
            s,
            seq![
                email_query_call(
                    Some(mailbox_id(s.mailboxes, s.folder().remote_name@)),
                    QUERY_LIMIT,
                ),
                email_get_call(),
            ],
            state_token(s.folder().highest_modseq),
        ),
    )
}

/// A length as a counter that stops at its largest value.
pub open spec fn counted(len: nat) -> u32 {
    if len <= u32::MAX {
        len as u32
    } else {
        u32::MAX
    }
}

/// The messages that a response holds were found.
pub open spec fn emails_found(
    s: SyncState,
    emails: Seq<EmailView>,
    new_state: Option<Seq<char>>,
) -> Transition {
    if emails.len() == 0 {
        folder_taken(s, s.next + 1)
    } else {
        (
            SyncState {
                phase: SyncPhase::Ingesting,
                cursor: token_cursor(new_state),
                ..s
            },
            SyncActionView::Ingest { folder: s.folder().id, emails },
        )
    }
}

/// The batch is stored and told of: the cursor is stored, if there is one.
pub open spec fn batch_settled(s: SyncState) -> Transition {
    match s.cursor {
        Some(cursor) => (
            SyncState { phase: SyncPhase::StoringCursor, ..s },
            SyncActionView::StoreCursor {
                folder: s.folder().id,
                uid_validity: 0,
                highest_modseq: Some(cursor),
            },
        ),
        None => folder_taken(s, s.next + 1),
    }
}

/// The position of the first summary of `folder`, from `from` on; the number
/// of summaries where there is none.
pub open spec fn summary_index(summaries: Seq<FolderSummary>, folder: FolderId, from: int) -> int
    decreases summaries.len() - from,
{
    if from >= summaries.len() || summaries[from].id == folder {
        from
    } else {
        summary_index(summaries, folder, from + 1)
    }
}

/// The delta that tells of new mail: the counts of the folder's summary, or
/// zero where there is none.
pub open spec fn folder_delta(
    summaries: Seq<FolderSummary>,
    folder: FolderId,
    new: u32,
) -> FolderDelta {
    let i = summary_index(summaries, folder, 0);
    if i < summaries.len() {
        FolderDelta { new, total: summaries[i].total, unread: summaries[i].unread }
    } else {
        FolderDelta { new, total: 0, unread: 0 }
    }
}

/// The listed folders; none where listing failed.
pub open spec fn listed(r: Result<Vec<FolderSummary>, StoreError>) -> Seq<FolderSummary> {
    match r {
        Ok(summaries) => summaries@,
        Err(_) => Seq::empty(),
    }
}

/// Session discovery ended.
pub open spec fn discovered(s: SyncState, reply: HttpReply<JmapSession>) -> Transition {
    match exchange_error(reply, "session discovery returned "@, "session parse: "@) {
        Some(error) => cycle_failed(s, error),
        None => announced(
            SyncState { api_url: Some((reply->body->Ok_0).api_url@), ..s },
            SyncPhase::Authenticating,
            ConnectionState::Authenticating,
        ),
    }
}

/// `Mailbox/get` ended.
pub open spec fn mailboxes_answered(s: SyncState, reply: HttpReply<JmapResponse>) -> Transition {
    match exchange_error(reply, "JMAP API returned "@, "JMAP response parse: "@) {
        Some(error) => cycle_failed(s, error),
        None => {
            let response = reply->body->Ok_0;
            match method_list(json_views(response.method_responses@), "Mailbox/get"@) {
                Ok(Some(list)) => tree_read(
                    SyncState { mailboxes: list.map_values(|v: JsonView| mailbox_of(v)), ..s },
                ),
                Ok(None) => cycle_failed(
                    s,
                    SyncErrorView::Protocol("Mailbox/get: no method response found"@),
                ),
                Err(fault) => cycle_failed(s, fault_error("Mailbox/get"@, fault)),
            }
        },
    }
}

/// `Email/query` + `Email/get` ended.
pub open spec fn emails_answered(s: SyncState, reply: HttpReply<JmapResponse>) -> Transition {
    match exchange_error(reply, "JMAP API returned "@, "JMAP response parse: "@) {
        Some(error) => cycle_failed(s, error),
        None => {
            let response = reply->body->Ok_0;
            match method_list(json_views(response.method_responses@), "Email/get"@) {
                Ok(Some(list)) => emails_found(
                    s,
                    list.map_values(|v: JsonView| email_of(v)),
                    opt_view(response.new_state),
                ),
                Ok(None) => emails_found(s, Seq::empty(), opt_view(response.new_state)),
                Err(fault) => cycle_failed(s, fault_error("Email/get"@, fault)),
            }
        },
    }
}

/// The reconnect delay after one of `ms`: twice as long, up to the longest.
pub open spec fn longer_backoff(ms: u64) -> u64 {
    if 2 * ms <= LONGEST_BACKOFF_MS {
        (2 * ms) as u64
    } else {
        LONGEST_BACKOFF_MS
    }
}

/// What the service does when its last action is answered by `event`.
pub open spec fn transition(s: SyncState, event: SyncEvent) -> Transition {
    match s.phase {
        SyncPhase::CycleGate => if event->Cancelled_0 {
            stopped(s)
        } else {
            announced(s, SyncPhase::Connecting, ConnectionState::Connecting)
        },
        SyncPhase::Connecting => (
            SyncState { phase: SyncPhase::Discovering, ..s },
            SyncActionView::Discover {
                url: "https://"@ + s.host + "/.well-known/jmap"@,
                authorization: bearer(s.token),
                timeout_ms: HTTP_TIMEOUT_MS,
            },
        ),
        SyncPhase::Discovering => match event {
            SyncEvent::NoHttpClient(what) => cycle_failed(
                s,
                SyncErrorView::Protocol("http client: "@ + what@),
            ),
            SyncEvent::Discovered(reply) => discovered(s, reply),
            _ => stopped(s),
        },
        SyncPhase::Authenticating => announced(s, SyncPhase::Syncing, ConnectionState::Syncing),
        SyncPhase::Syncing => (
            SyncState { phase: SyncPhase::FetchingMailboxes, ..s },
            api_call(s, seq![mailbox_get_call()], None),
        ),
        SyncPhase::FetchingMailboxes => mailboxes_answered(s, event->Responded_0),
        SyncPhase::ReadingTree => mailbox_upserted(
            SyncState {
                tree_changed: mailbox_tree(s.mailboxes) != stored_tree(listed(event->Folders_0)),
                ..s
            },
            0,
        ),
        SyncPhase::Upserting => mailbox_upserted(s, s.next + 1),
        SyncPhase::ListingFolders => {
            let found = listed(event->Folders_0);
            row_loaded(
                SyncState {
                    ids: found.map_values(|f: FolderSummary| f.id),
                    rows: Seq::empty(),
                    ..s
                },
                0,
            )
        },
        SyncPhase::LoadingFolder => match event->Folder_0 {
            Ok(row) => row_loaded(SyncState { rows: s.rows.push(row), ..s }, s.next + 1),
            Err(_) => row_loaded(s, s.next + 1),
        },
        SyncPhase::AnnouncingTree => if event->Delivered_0 {
            folder_taken(s, 0)
        } else {
            cycle_failed(s, SyncErrorView::Protocol("bus closed"@))
        },
        SyncPhase::FolderGate => if event->Cancelled_0 {
            cycle_ended(s)
        } else {
            queried(s)
        },
        SyncPhase::Querying => emails_answered(s, event->Responded_0),
        SyncPhase::Ingesting => match event->Ingested_0 {
            Ok(stats) => if stats.inserted > 0 {
                (
                    SyncState {
                        phase: SyncPhase::Summarizing,
                        new_count: counted(stats.inserted as nat),
                        ..s
                    },
                    SyncActionView::ListFolders(s.account),
                )
            } else {
                batch_settled(s)
            },
            Err(e) => cycle_failed(s, SyncErrorView::Store(e@)),
        },
        SyncPhase::Summarizing => (
            SyncState { phase: SyncPhase::AnnouncingMail, ..s },
            SyncActionView::Emit(
                EngineEventView::MailArrived {
                    account: s.account,
                    folder: s.folder().id,
                    summary: folder_delta(
                        listed(event->Folders_0),
                        s.folder().id,
                        s.new_count,
                    ),
                },
            ),
        ),
        SyncPhase::AnnouncingMail => batch_settled(s),
        SyncPhase::StoringCursor => folder_taken(s, s.next + 1),
        SyncPhase::PollPause => if event->cancelled {
            cycle_ended(s)
        } else {
            announced(s, SyncPhase::PollSyncing, ConnectionState::Syncing)
        },
        SyncPhase::PollSyncing => folders_listed(s, true),
        SyncPhase::Disconnecting => (
            SyncState { phase: SyncPhase::BackingOff, ..s },
            SyncActionView::Wait { ms: s.backoff_ms },
        ),
        SyncPhase::BackingOff => if event->cancelled {
            stopped(s)
        } else {
            (
                SyncState {
                    phase: SyncPhase::CycleGate,
                    backoff_ms: longer_backoff(s.backoff_ms),
                    ..s
                },
                SyncActionView::CheckCancelled,
            )
        },
        SyncPhase::Stopped => stopped(s),
    }
}

// ---------------------------------------------------------------------------
// Service
// ---------------------------------------------------------------------------

/// JMAP sync service (one instance per account).
pub struct JmapSyncService {
    account: AccountId,
    host: String,
    token: SecretString,
    phase: SyncPhase,
    backoff_ms: u64,
    client: Option<JmapClient>,
    mailboxes: Vec<ParsedMailbox>,
    ids: Vec<FolderId>,
    rows: Vec<FolderRow>,
    next: usize,
    polling: bool,
    tree_changed: bool,
    new_count: u32,
    cursor: Option<u64>,
}

impl View for JmapSyncService {
    type V = SyncState;

    closed spec fn view(&self) -> SyncState {
        SyncState {
            account: self.account,
            host: self.host@,
            token: self.token@,
            phase: self.phase,
            backoff_ms: self.backoff_ms,
            api_url: match self.client {
                Some(client) => Some(client.spec_api_url()),
                None => None,
            },
            mailboxes: mailbox_views(self.mailboxes@),
            ids: self.ids@,
            rows: self.rows@,
            next: self.next as nat,
            polling: self.polling,
            tree_changed: self.tree_changed,
            new_count: self.new_count,
            cursor: self.cursor,
        }
    }
}

impl JmapSyncService {
    /// The reconnect delay is within its bounds, and the client authenticates
    /// with the account's token.
    closed spec fn consistent(self) -> bool {
        &&& FIRST_BACKOFF_MS <= self.backoff_ms <= LONGEST_BACKOFF_MS
        &&& self.client matches Some(client) ==> client.spec_auth_header() == bearer(self.token@)
    }

    /// What holds of every service between two steps.
    pub closed spec fn valid(self) -> bool {
        self.consistent() && self@.well_formed()
    }

    /// Whether the service came by `t` into its state and to `action`.
    spec fn took<P>(self, action: SyncAction<P>, t: Transition) -> bool {
        &&& self.valid()
        &&& self@ == t.0
        &&& action.shown() == Some(t.1)
    }

    /// Creates the service. Its first action is to check for cancellation.
    #[must_use]
    pub fn new(account: AccountId, host: String, token: SecretString) -> (r: Self)
        ensures
            r.valid(),
            r@ == SyncState::fresh(account, host@, token@),
    {
        let r = Self {
            account,
            host,
            token,
            phase: SyncPhase::CycleGate,
            backoff_ms: FIRST_BACKOFF_MS,
            client: None,
            mailboxes: Vec::new(),
            ids: Vec::new(),
            rows: Vec::new(),
            next: 0,
            polling: false,
            tree_changed: false,
            new_count: 0,
            cursor: None,
        };
        assert(r@ =~= SyncState::fresh(account, host@, token@));
        r
    }

    /// What the service waits for.
    #[must_use]
    pub fn phase(&self) -> (r: SyncPhase)
        ensures
            r == self@.phase,
    {
        self.phase
    }

    /// Whether `event` answers what the service waits for.
    #[must_use]
    pub fn accepts(&self, event: &SyncEvent) -> (r: bool)
        ensures
            r == answers(self@.phase, *event),
    {
        match self.phase {
            SyncPhase::CycleGate | SyncPhase::FolderGate => {
                matches!(event, SyncEvent::Cancelled(_))
            },
            SyncPhase::Connecting
            | SyncPhase::Authenticating
            | SyncPhase::Syncing
            | SyncPhase::Upserting
            | SyncPhase::StoringCursor
            | SyncPhase::PollSyncing
            | SyncPhase::Disconnecting => matches!(event, SyncEvent::Done),
            SyncPhase::Discovering => match event {
                SyncEvent::NoHttpClient(_) => true,
                SyncEvent::Discovered(reply) => reply.is_valid(),
                _ => false,
            },
            SyncPhase::FetchingMailboxes | SyncPhase::Querying => match event {
                SyncEvent::Responded(reply) => reply.is_valid(),
                _ => false,
            },
            SyncPhase::ReadingTree | SyncPhase::ListingFolders | SyncPhase::Summarizing => {
                matches!(event, SyncEvent::Folders(_))
            },
            SyncPhase::LoadingFolder => matches!(event, SyncEvent::Folder(_)),
            SyncPhase::AnnouncingTree | SyncPhase::AnnouncingMail => {
                matches!(event, SyncEvent::Delivered(_))
            },
            SyncPhase::Ingesting => matches!(event, SyncEvent::Ingested(_)),
            SyncPhase::PollPause | SyncPhase::BackingOff => {
                matches!(event, SyncEvent::Woken { .. })
            },
            SyncPhase::Stopped => false,
        }
    }

    fn announce<P>(&mut self, phase: SyncPhase, state: ConnectionState) -> (r: SyncAction<P>)
        requires
            old(self).consistent(),
            (SyncState { phase, ..old(self)@ }).well_formed(),
        ensures
            final(self).took(r, announced(old(self)@, phase, state)),
    {
        self.phase = phase;
        SyncAction::Announce {
            state,
            event: EngineEvent::AccountConnection { account: self.account, state },
        }
    }

    fn end_cycle<P>(&mut self) -> (r: SyncAction<P>)
        requires
            old(self).consistent(),
        ensures
            final(self).took(r, cycle_ended(old(self)@)),
    {
        self.phase = SyncPhase::CycleGate;
        self.backoff_ms = FIRST_BACKOFF_MS;
        SyncAction::CheckCancelled
    }

    fn fail_cycle<P>(&mut self, error: SyncError) -> (r: SyncAction<P>)
        requires
            old(self).consistent(),
        ensures
            final(self).took(r, cycle_failed(old(self)@, error@)),
    {
        self.phase = SyncPhase::Disconnecting;
        SyncAction::Disconnect {
            error,
            event: EngineEvent::AccountConnection {
                account: self.account,
                state: ConnectionState::Disconnected,
            },
        }
    }

    fn stop<P>(&mut self) -> (r: SyncAction<P>)
        requires
            old(self).consistent(),
        ensures
            final(self).took(r, stopped(old(self)@)),
    {
        self.phase = SyncPhase::Stopped;
        SyncAction::Stop
    }

    fn list_folders<P>(&mut self, polling: bool) -> (r: SyncAction<P>)
        requires
            old(self).consistent(),
            old(self)@.api_url is Some,
        ensures
            final(self).took(r, folders_listed(old(self)@, polling)),
    {
        self.phase = SyncPhase::ListingFolders;
        self.polling = polling;
        SyncAction::ListFolders(self.account)
    }

    fn upsert_mailbox<P>(&mut self, next: usize) -> (r: SyncAction<P>)
        requires
            old(self).consistent(),
            old(self)@.api_url is Some,
        ensures
            final(self).took(r, mailbox_upserted(old(self)@, next as nat)),
    {
        if next < self.mailboxes.len() {
            self.phase = SyncPhase::Upserting;
            self.next = next;
            let mailbox = &self.mailboxes[next];
            assert(self@.mailboxes[next as int] == mailbox@);
            SyncAction::Upsert(
                NewFolder {
                    account: self.account,
                    remote_name: mailbox.name.clone(),
                    attributes: mailbox.attributes(),
                    role: role_from_jmap(mailbox.name.as_str()),
                    delimiter: "/".to_string(),
                    uid_validity: 0,
                    highest_modseq: 0,
                },
            )
        } else {
            self.list_folders(false)
        }
    }

    fn load_row<P>(&mut self, next: usize) -> (r: SyncAction<P>)
        requires
            old(self).consistent(),
            old(self)@.api_url is Some,
        ensures
            final(self).took(r, row_loaded(old(self)@, next as nat)),
    {
        if next < self.ids.len() {
            self.phase = SyncPhase::LoadingFolder;
            self.next = next;
            SyncAction::LoadFolder(self.ids[next])
        } else if self.polling || !self.tree_changed {
            self.take_folder(0)
        } else {
            self.phase = SyncPhase::AnnouncingTree;
            SyncAction::Emit(EngineEvent::FolderTreeChanged { account: self.account })
        }
    }

    fn take_folder<P>(&mut self, next: usize) -> (r: SyncAction<P>)
        requires
            old(self).consistent(),
            old(self)@.api_url is Some,
        ensures
            final(self).took(r, folder_taken(old(self)@, next as nat)),
    {
        if next < self.rows.len() {
            self.phase = SyncPhase::FolderGate;
            self.next = next;
            SyncAction::CheckCancelled
        } else {
            self.phase = SyncPhase::PollPause;
            SyncAction::Wait { ms: POLL_INTERVAL_MS }
        }
    }

    fn query_folder<P>(&mut self) -> (r: SyncAction<P>)
        requires
            old(self).consistent(),
            old(self)@.api_url is Some,
            old(self)@.next < old(self)@.rows.len(),
        ensures
            final(self).took(r, queried(old(self)@)),
    {
        self.phase = SyncPhase::Querying;
        let folder = &self.rows[self.next];
        // The folder's highest_modseq carries the JMAP state-token cursor.
        let since_state = if folder.highest_modseq > 0 {
            Some(decimal_text(folder.highest_modseq))
        } else {
            None
        };
        let mut mailbox_ids: Vec<String> = Vec::new();
        mailbox_ids.push(id_of(&self.mailboxes, folder.remote_name.as_str()));
        match &self.client {
            Some(client) => {
                let call = client.query_emails(mailbox_ids, since_state, QUERY_LIMIT);
                SyncAction::Call(call)
            },
            None => SyncAction::Stop,
        }
    }

    fn settle_batch<P>(&mut self) -> (r: SyncAction<P>)
        requires
            old(self).consistent(),
            old(self)@.api_url is Some,
            old(self)@.next < old(self)@.rows.len(),
        ensures
            final(self).took(r, batch_settled(old(self)@)),
    {
        match self.cursor {
            Some(cursor) => {
                self.phase = SyncPhase::StoringCursor;
                SyncAction::StoreCursor {
                    folder: self.rows[self.next].id,
                    uid_validity: 0,
                    highest_modseq: Some(cursor),
                }
            },
            None => self.take_folder(following(self.next, self.rows.len())),
        }
    }

    fn receive_session<P>(&mut self, reply: HttpReply<JmapSession>) -> (r: SyncAction<P>)
        requires
            old(self).consistent(),
            reply.valid(),
        ensures
            final(self).took(r, discovered(old(self)@, reply)),
    {
        match JmapClient::discovered(reply, &self.token) {
            Ok(client) => {
                self.client = Some(client);
                self.announce(SyncPhase::Authenticating, ConnectionState::Authenticating)
            },
            Err(e) => self.fail_cycle(e),
        }
    }

    fn receive_mailboxes<P>(&mut self, reply: HttpReply<JmapResponse>) -> (r: SyncAction<P>)
        requires
            old(self).consistent(),
            old(self)@.api_url is Some,
            reply.valid(),
        ensures
            final(self).took(r, mailboxes_answered(old(self)@, reply)),
    {
        let response = match JmapClient::called(reply) {
            Ok(response) => response,
            Err(e) => {
                return self.fail_cycle(e);
            },
        };
        match parse_mailbox_get(&response) {
            Ok(mailboxes) => {
                self.mailboxes = mailboxes;
                self.phase = SyncPhase::ReadingTree;
                SyncAction::ListFolders(self.account)
            },
            Err(e) => self.fail_cycle(e),
        }
    }

    fn compare_tree<P>(&mut self, found: Result<Vec<FolderSummary>, StoreError>) -> (r: SyncAction<
        P,
    >)
        requires
            old(self).consistent(),
            old(self)@.api_url is Some,
        ensures
            final(self).took(
                r,
                mailbox_upserted(
                    SyncState {
                        tree_changed: mailbox_tree(old(self)@.mailboxes) != stored_tree(
                            listed(found),
                        ),
                        ..old(self)@
                    },
                    0,
                ),
            ),
    {
        let stored = match found {
            Ok(summaries) => summaries,
            Err(_) => Vec::new(),
        };
        assert(stored@ =~= listed(found));
        self.tree_changed = differs(&self.mailboxes, &stored);
        self.upsert_mailbox(0)
    }

    fn receive_folders<P>(&mut self, found: Result<Vec<FolderSummary>, StoreError>) -> (r:
        SyncAction<P>)
        requires
            old(self).consistent(),
            old(self)@.api_url is Some,
        ensures
            final(self).took(
                r,
                row_loaded(
                    SyncState {
                        ids: listed(found).map_values(|f: FolderSummary| f.id),
                        rows: Seq::empty(),
                        ..old(self)@
                    },
                    0,
                ),
            ),
    {
        let summaries = match found {
            Ok(summaries) => summaries,
            Err(_) => Vec::new(),
        };
        assert(summaries@ =~= listed(found));
        let mut ids: Vec<FolderId> = Vec::new();
        let mut i: usize = 0;
        while i < summaries.len()
            invariant
                i <= summaries@.len(),
                ids@.len() == i,
                forall|j: int| 0 <= j < i ==> #[trigger] ids@[j] == summaries@[j].id,
            decreases summaries@.len() - i,
        {
            ids.push(summaries[i].id);
            i += 1;
        }
        assert(ids@ =~= listed(found).map_values(|f: FolderSummary| f.id));
        self.ids = ids;
        self.rows = Vec::new();
        self.load_row(0)
    }

    fn tell_of_mail<P>(&mut self, found: Result<Vec<FolderSummary>, StoreError>) -> (r: SyncAction<
        P,
    >)
        requires
            old(self).consistent(),
            old(self)@.api_url is Some,
            old(self)@.next < old(self)@.rows.len(),
        ensures
            final(self).took(
                r,
                (
                    SyncState { phase: SyncPhase::AnnouncingMail, ..old(self)@ },
                    SyncActionView::Emit(
                        EngineEventView::MailArrived {
                            account: old(self)@.account,
                            folder: old(self)@.folder().id,
                            summary: folder_delta(
                                listed(found),
                                old(self)@.folder().id,
                                old(self)@.new_count,
                            ),
                        },
                    ),
                ),
            ),
    {
        let summaries = match found {
            Ok(summaries) => summaries,
            Err(_) => Vec::new(),
        };
        assert(summaries@ =~= listed(found));
        self.phase = SyncPhase::AnnouncingMail;
        let folder = self.rows[self.next].id;
        SyncAction::Emit(
            EngineEvent::MailArrived {
                account: self.account,
                folder,
                summary: delta_for(&summaries, folder, self.new_count),
            },
        )
    }

    fn receive_emails<P, F: Fn(&[u8]) -> P, C: SyncClock + ?Sized>(
        &mut self,
        reply: HttpReply<JmapResponse>,
        parse: &F,
        clock: &C,
    ) -> (r: SyncAction<P>)
        requires
            old(self).consistent(),
            old(self)@.api_url is Some,
            old(self)@.next < old(self)@.rows.len(),
            reply.valid(),
            forall|head: &[u8]| #[trigger] call_requires(*parse, (head,)),
        ensures
            final(self).valid(),
            final(self)@ == emails_answered(old(self)@, reply).0,
            action_is(r, emails_answered(old(self)@, reply).1, *parse, clock),
    {
        let response = match JmapClient::called(reply) {
            Ok(response) => response,
            Err(e) => {
                return self.fail_cycle(e);
            },
        };
        let emails = match parse_email_get(&response) {
            Ok(emails) => emails,
            Err(e) => {
                return self.fail_cycle(e);
            },
        };
        let ghost found = email_views(emails@);
        assert(emails@.len() == 0 ==> found =~= Seq::empty());
        assert(emails_answered(self@, reply) == emails_found(
            self@,
            found,
            opt_view(response.new_state),
        ));
        if emails.len() == 0 {
            return self.take_folder(following(self.next, self.rows.len()));
        }
        let folder = self.rows[self.next].id;
        let batch = ingest_batch(folder, &emails, parse, clock);
        self.phase = SyncPhase::Ingesting;
        self.cursor = match &response.new_state {
            Some(token) => parse_u64(token.as_str()),
            None => None,
        };
        SyncAction::Ingest(batch)
    }

    /// Takes the answer to the last action and names the next action. `parse`
    /// is the host's message parser.
    pub fn step<P, F: Fn(&[u8]) -> P, C: SyncClock + ?Sized>(
        &mut self,
        event: SyncEvent,
        parse: &F,
        clock: &C,
    ) -> (r: SyncAction<P>)
        requires
            old(self).valid(),
            answers(old(self)@.phase, event),
            forall|head: &[u8]| #[trigger] call_requires(*parse, (head,)),
        ensures
            final(self).valid(),
            final(self)@ == transition(old(self)@, event).0,
            action_is(r, transition(old(self)@, event).1, *parse, clock),
    {
        match (self.phase, event) {
            (SyncPhase::CycleGate, SyncEvent::Cancelled(cancelled)) => if cancelled {
                self.stop()
            } else {
                self.announce(SyncPhase::Connecting, ConnectionState::Connecting)
            },
            (SyncPhase::Connecting, SyncEvent::Done) => {
                self.phase = SyncPhase::Discovering;
                SyncAction::Discover {
                    call: JmapClient::discover(self.host.as_str(), &self.token),
                    timeout_ms: HTTP_TIMEOUT_MS,
                }
            },
            (SyncPhase::Discovering, SyncEvent::NoHttpClient(what)) => self.fail_cycle(
                SyncError::Protocol(prefixed("http client: ", what.as_str())),
            ),
            (SyncPhase::Discovering, SyncEvent::Discovered(reply)) => self.receive_session(reply),
            (SyncPhase::Authenticating, SyncEvent::Done) => self.announce(
                SyncPhase::Syncing,
                ConnectionState::Syncing,
            ),
            (SyncPhase::Syncing, SyncEvent::Done) => {
                self.phase = SyncPhase::FetchingMailboxes;
                match &self.client {
                    Some(client) => SyncAction::Call(client.get_mailboxes()),
                    None => SyncAction::Stop,
                }
            },
            (SyncPhase::FetchingMailboxes, SyncEvent::Responded(reply)) => self.receive_mailboxes(
                reply,
            ),
            (SyncPhase::ReadingTree, SyncEvent::Folders(found)) => self.compare_tree(found),
            (SyncPhase::Upserting, SyncEvent::Done) => self.upsert_mailbox(
                following(self.next, self.mailboxes.len()),
            ),
            (SyncPhase::ListingFolders, SyncEvent::Folders(found)) => self.receive_folders(found),
            (SyncPhase::LoadingFolder, SyncEvent::Folder(found)) => {
                if let Ok(row) = found {
                    self.rows.push(row);
                }
                self.load_row(following(self.next, self.ids.len()))
            },
            (SyncPhase::AnnouncingTree, SyncEvent::Delivered(taken)) => if taken {
                self.take_folder(0)
            } else {
                self.fail_cycle(SyncError::Protocol("bus closed".to_string()))
            },
            (SyncPhase::FolderGate, SyncEvent::Cancelled(cancelled)) => if cancelled {
                self.end_cycle()
            } else {
                self.query_folder()
            },
            (SyncPhase::Querying, SyncEvent::Responded(reply)) => self.receive_emails(
                reply,
                parse,
                clock,
            ),
            (SyncPhase::Ingesting, SyncEvent::Ingested(Ok(stats))) => if stats.inserted > 0 {
                self.phase = SyncPhase::Summarizing;
                self.new_count = if stats.inserted <= 0xffff_ffff {
                    stats.inserted as u32
                } else {
                    0xffff_ffff
                };
                SyncAction::ListFolders(self.account)
            } else {
                self.settle_batch()
            },
            (SyncPhase::Ingesting, SyncEvent::Ingested(Err(e))) => self.fail_cycle(
                SyncError::from(e),
            ),
            (SyncPhase::Summarizing, SyncEvent::Folders(found)) => self.tell_of_mail(found),
            (SyncPhase::AnnouncingMail, SyncEvent::Delivered(_)) => self.settle_batch(),
            (SyncPhase::StoringCursor, SyncEvent::Done) => self.take_folder(
                following(self.next, self.rows.len()),
            ),
            (SyncPhase::PollPause, SyncEvent::Woken { cancelled }) => if cancelled {
                self.end_cycle()
            } else {
                self.announce(SyncPhase::PollSyncing, ConnectionState::Syncing)
            },
            (SyncPhase::PollSyncing, SyncEvent::Done) => self.list_folders(true),
            (SyncPhase::Disconnecting, SyncEvent::Done) => {
                self.phase = SyncPhase::BackingOff;
                SyncAction::Wait { ms: self.backoff_ms }
            },
            (SyncPhase::BackingOff, SyncEvent::Woken { cancelled }) => if cancelled {
                self.stop()
            } else {
                self.phase = SyncPhase::CycleGate;
                self.backoff_ms = if self.backoff_ms <= LONGEST_BACKOFF_MS / 2 {
                    2 * self.backoff_ms
                } else {
                    LONGEST_BACKOFF_MS
                };
                SyncAction::CheckCancelled
            },
            _ => self.stop(),
        }
    }
}

/// The delta that tells of new mail in `folder`.
fn delta_for(summaries: &Vec<FolderSummary>, folder: FolderId, new: u32) -> (r: FolderDelta)
    ensures
        r == folder_delta(summaries@, folder, new),
{
    let mut i: usize = 0;
    while i < summaries.len() && summaries[i].id != folder
        invariant
            i <= summaries@.len(),
            summary_index(summaries@, folder, 0) == summary_index(summaries@, folder, i as int),
        decreases summaries@.len() - i,
    {
        i += 1;
    }
    if i < summaries.len() {
        FolderDelta { new, total: summaries[i].total, unread: summaries[i].unread }
    } else {
        FolderDelta { new, total: 0, unread: 0 }
    }
}

/// What stands for a folder in a query.
fn id_of(mailboxes: &Vec<ParsedMailbox>, name: &str) -> (r: String)
    ensures
        r@ == mailbox_id(mailbox_views(mailboxes@), name@),
{
    let ghost all = mailbox_views(mailboxes@);
    let mut i: usize = 0;
    while i < mailboxes.len()
        invariant
            i <= mailboxes@.len(),
            all == mailbox_views(mailboxes@),
            mailbox_index(all, name@, 0) == mailbox_index(all, name@, i as int),
        decreases mailboxes@.len() - i,
    {
        assert(all[i as int] == mailboxes@[i as int]@);
        if same_text(mailboxes[i].name.as_str(), name) {
            return mailboxes[i].id.clone();
        }
        i += 1;
    }
    name.to_string()
}

fn roles_agree(a: Option<FolderRole>, b: Option<FolderRole>) -> (r: bool)
    ensures
        r == (a == b),
{
    match (a, b) {
        (Some(x), Some(y)) => x == y,
        (None, None) => true,
        _ => false,
    }
}

/// Whether `mailbox` and `folder` have the same name and role.
spec fn agree(mailbox: MailboxView, folder: FolderSummary) -> bool {
    (mailbox.name, mailbox_role(mailbox)) == (folder.remote_name@, folder.role)
}

fn counterparts(mailbox: &ParsedMailbox, folder: &FolderSummary) -> (r: bool)
    ensures
        r == agree(mailbox@, *folder),
{
    same_text(mailbox.name.as_str(), folder.remote_name.as_str()) && roles_agree(
        role_from_jmap(mailbox.name.as_str()),
        folder.role,
    )
}

fn is_stored(mailbox: &ParsedMailbox, stored: &Vec<FolderSummary>) -> (r: bool)
    ensures
        r == stored_tree(stored@).contains((mailbox@.name, mailbox_role(mailbox@))),
{
    let ghost pairs = stored@.map_values(|f: FolderSummary| (f.remote_name@, f.role));
    let mut i: usize = 0;
    while i < stored.len()
        invariant
            i <= stored@.len(),
            pairs == stored@.map_values(|f: FolderSummary| (f.remote_name@, f.role)),
            forall|k: int| 0 <= k < i ==> !agree(mailbox@, #[trigger] stored@[k]),
        decreases stored@.len() - i,
    {
        if counterparts(mailbox, &stored[i]) {
            assert(pairs[i as int] == (mailbox@.name, mailbox_role(mailbox@)));
            return true;
        }
        i += 1;
    }
    assert(!pairs.contains((mailbox@.name, mailbox_role(mailbox@))));
    false
}

fn is_listed(folder: &FolderSummary, mailboxes: &Vec<ParsedMailbox>) -> (r: bool)
    ensures
        r == mailbox_tree(mailbox_views(mailboxes@)).contains((folder.remote_name@, folder.role)),
{
    let ghost all = mailbox_views(mailboxes@);
    let ghost pairs = all.map_values(|m: MailboxView| (m.name, mailbox_role(m)));
    let mut i: usize = 0;
    while i < mailboxes.len()
        invariant
            i <= mailboxes@.len(),
            all == mailbox_views(mailboxes@),
            pairs == all.map_values(|m: MailboxView| (m.name, mailbox_role(m))),
            forall|k: int| 0 <= k < i ==> !agree(#[trigger] all[k], *folder),
        decreases mailboxes@.len() - i,
    {
        assert(all[i as int] == mailboxes@[i as int]@);
        if counterparts(&mailboxes[i], folder) {
            assert(pairs[i as int] == (folder.remote_name@, folder.role));
            return true;
        }
        i += 1;
    }
    assert(!pairs.contains((folder.remote_name@, folder.role)));
    false
}

/// Whether the mailboxes and the stored folders differ in names and roles.
fn differs(mailboxes: &Vec<ParsedMailbox>, stored: &Vec<FolderSummary>) -> (r: bool)
    ensures
        r == (mailbox_tree(mailbox_views(mailboxes@)) != stored_tree(stored@)),
{
    let ghost all = mailbox_views(mailboxes@);
    let ghost left = all.map_values(|m: MailboxView| (m.name, mailbox_role(m)));
    let ghost right = stored@.map_values(|f: FolderSummary| (f.remote_name@, f.role));
    let mut i: usize = 0;
    while i < mailboxes.len()
        invariant
            i <= mailboxes@.len(),
            all == mailbox_views(mailboxes@),
            left == all.map_values(|m: MailboxView| (m.name, mailbox_role(m))),
            forall|k: int| 0 <= k < i ==> stored_tree(stored@).contains(#[trigger] left[k]),
        decreases mailboxes@.len() - i,
    {
        assert(all[i as int] == mailboxes@[i as int]@);
        if !is_stored(&mailboxes[i], stored) {
            assert(left.contains(left[i as int]));
            assert(mailbox_tree(all).contains(left[i as int]));
            return true;
        }
        i += 1;
    }
    let mut j: usize = 0;
    while j < stored.len()
        invariant
            j <= stored@.len(),
            all == mailbox_views(mailboxes@),
            right == stored@.map_values(|f: FolderSummary| (f.remote_name@, f.role)),
            forall|k: int| 0 <= k < j ==> mailbox_tree(all).contains(#[trigger] right[k]),
        decreases stored@.len() - j,
    {
        if !is_listed(&stored[j], mailboxes) {
            assert(right.contains(right[j as int]));
            assert(stored_tree(stored@).contains(right[j as int]));
            return true;
        }
        j += 1;
    }
    assert(mailbox_tree(all) =~= stored_tree(stored@));
    false
}

/// The position after `next` among `len` items.
fn following(next: usize, len: usize) -> (r: usize)
    requires
        next < len,
    ensures
        r == next + 1,
{
    next + 1
}

// ---------------------------------------------------------------------------
// Laws
// ---------------------------------------------------------------------------

/// Every answer leads from a well-formed state to a well-formed state of the
/// same account, host and token: in particular the reconnect delay never
/// leaves its bounds.
pub proof fn law_states_stay_well_formed(s: SyncState, event: SyncEvent)
    requires
        s.well_formed(),
        answers(s.phase, event),
    ensures
        transition(s, event).0.well_formed(),
        transition(s, event).0.account == s.account,
        transition(s, event).0.host == s.host,
        transition(s, event).0.token == s.token,
{
}

/// The hierarchy sync begins with the first mailbox, upserts every mailbox
/// once, in order, and then lists the folders; the folders found are loaded once each, in order.
pub proof fn law_hierarchy_takes_each_mailbox_and_folder_in_turn(
    s: SyncState,
    event: SyncEvent,
)
    requires
        s.well_formed(),
        answers(s.phase, event),
    ensures
        s.phase == SyncPhase::ReadingTree ==> {
            let t = transition(s, event);
            &&& t.0.mailboxes == s.mailboxes
            &&& if s.mailboxes.len() > 0 {
                &&& t.0.phase == SyncPhase::Upserting
                &&& t.0.next == 0
                &&& t.1 == SyncActionView::Upsert(folder_for(s.account, s.mailboxes[0]))
            } else {
                t.1 == SyncActionView::ListFolders(s.account)
            }
        },
        s.phase == SyncPhase::Upserting ==> {
            let t = transition(s, event);
            &&& t.0.mailboxes == s.mailboxes
            &&& if s.next + 1 < s.mailboxes.len() {
                &&& t.0.phase == SyncPhase::Upserting
                &&& t.0.next == s.next + 1
                &&& t.1 == SyncActionView::Upsert(
                    folder_for(s.account, s.mailboxes[s.next as int + 1]),
                )
            } else {
                t.1 == SyncActionView::ListFolders(s.account)
            }
        },
        s.phase == SyncPhase::LoadingFolder ==> {
            let t = transition(s, event);
            &&& t.0.ids == s.ids
            &&& t.0.phase == SyncPhase::LoadingFolder <==> s.next + 1 < s.ids.len()
            &&& s.next + 1 < s.ids.len() ==> t.0.next == s.next + 1 && t.1
                == SyncActionView::LoadFolder(s.ids[s.next as int + 1])
        },
{
}

/// The reconnect delay after `failures` failed cycles in a row.
pub open spec fn backoff_after(failures: nat) -> u64
    decreases failures,
{
    if failures == 0 {
        FIRST_BACKOFF_MS
    } else {
        longer_backoff(backoff_after((failures - 1) as nat))
    }
}

/// The reconnect delay doubles from 250 ms with every failed cycle, up to
/// five minutes.
pub proof fn law_backoff_doubles_to_five_minutes(failures: nat)
    ensures
        backoff_after(failures) == if 250 * pow2(failures) <= 300_000 {
            250 * pow2(failures)
        } else {
            300_000
        },
    decreases failures,
{
    if failures == 0 {
        lemma2_to64();
    } else {
        law_backoff_doubles_to_five_minutes((failures - 1) as nat);
        lemma_pow2_unfold(failures);
    }
}

/// A failed cycle announces `Disconnected` and then waits for the reconnect
/// delay; unless cancelled, the next cycle comes after it, with the delay
/// grown. A cycle that ends well sets the delay back.
pub proof fn law_failed_cycle_backs_off(s: SyncState, event: SyncEvent)
    requires
        answers(s.phase, event),
        transition(s, event).0.phase == SyncPhase::Disconnecting,
    ensures
        transition(s, event).1 matches SyncActionView::Disconnect { event: told, .. }
            && told == (EngineEventView::AccountConnection {
            account: s.account,
            state: ConnectionState::Disconnected,
        }),
        ({
            let failed = transition(s, event).0;
            let waiting = transition(failed, SyncEvent::Done);
            let again = transition(waiting.0, SyncEvent::Woken { cancelled: false });
            &&& waiting.1 == (SyncActionView::Wait { ms: s.backoff_ms })
            &&& again.0.phase == SyncPhase::CycleGate
            &&& again.0.backoff_ms == longer_backoff(s.backoff_ms)
            &&& cycle_ended(s).0.backoff_ms == FIRST_BACKOFF_MS
        }),
{
}

/// Cancellation takes effect at every point where the service looks for it:
/// at once before a cycle and during the reconnect delay, and by way of the
/// check before the next cycle between two folders and during the polling
/// pause. A stopped service waits for nothing.
pub proof fn law_cancellation_stops_the_service(s: SyncState)
    ensures
        s.phase == SyncPhase::CycleGate ==> transition(s, SyncEvent::Cancelled(true)) == stopped(s),
        s.phase == SyncPhase::BackingOff ==> transition(s, SyncEvent::Woken { cancelled: true })
            == stopped(s),
        s.phase == SyncPhase::FolderGate ==> transition(
            transition(s, SyncEvent::Cancelled(true)).0,
            SyncEvent::Cancelled(true),
        ).1 == SyncActionView::Stop,
        s.phase == SyncPhase::PollPause ==> transition(
            transition(s, SyncEvent::Woken { cancelled: true }).0,
            SyncEvent::Cancelled(true),
        ).1 == SyncActionView::Stop,
        forall|event: SyncEvent| !answers(stopped(s).0.phase, event),
{
}

/// A cycle announces `Connecting`, discovers the session, and then announces
/// `Authenticating` and `Syncing` before it asks for the mailboxes.
pub proof fn law_cycle_announces_its_progress(s: SyncState, reply: HttpReply<JmapSession>)
    requires
        s.phase == SyncPhase::CycleGate,
        exchange_error(reply, "session discovery returned "@, "session parse: "@) is None,
    ensures
        ({
            let connecting = transition(s, SyncEvent::Cancelled(false));
            let discovering = transition(connecting.0, SyncEvent::Done);
            let authenticating = transition(discovering.0, SyncEvent::Discovered(reply));
            let syncing = transition(authenticating.0, SyncEvent::Done);
            let fetching = transition(syncing.0, SyncEvent::Done);
            &&& connecting.1 matches SyncActionView::Announce { state, .. } && state
                == ConnectionState::Connecting
            &&& discovering.1 is Discover
            &&& authenticating.1 matches SyncActionView::Announce { state, .. } && state
                == ConnectionState::Authenticating
            &&& syncing.1 matches SyncActionView::Announce { state, .. } && state
                == ConnectionState::Syncing
            &&& fetching.1 matches SyncActionView::Call { url, calls, .. } && url
                == (reply->body->Ok_0).api_url@ && calls == seq![mailbox_get_call()]
        }),
{
    let connecting = transition(s, SyncEvent::Cancelled(false));
    assert(connecting == announced(s, SyncPhase::Connecting, ConnectionState::Connecting));
    let discovering = transition(connecting.0, SyncEvent::Done);
    assert(discovering.0.phase == SyncPhase::Discovering);
    let authenticating = transition(discovering.0, SyncEvent::Discovered(reply));
    assert(authenticating == discovered(discovering.0, reply));
    assert(authenticating.0.phase == SyncPhase::Authenticating);
    let syncing = transition(authenticating.0, SyncEvent::Done);
    assert(syncing == announced(
        authenticating.0,
        SyncPhase::Syncing,
        ConnectionState::Syncing,
    ));
}

/// Discovery goes to the account's host and every API call to the discovered
/// session, each with the account's bearer token.
pub proof fn law_calls_go_to_the_session(s: SyncState, event: SyncEvent)
    requires
        answers(s.phase, event),
    ensures
        transition(s, event).1 matches SyncActionView::Discover { url, authorization, .. } ==> url
            == "https://"@ + s.host + "/.well-known/jmap"@ && authorization == bearer(s.token),
        transition(s, event).1 matches SyncActionView::Call { url, authorization, .. } ==> url
            == s.api_url->0 && authorization == bearer(s.token),
{
}

/// A query asks for the messages of a mailbox by the mailbox's id: by that of
/// the first mailbox whose name the folder carries.
pub proof fn law_query_goes_by_the_mailbox_id(s: SyncState, i: int)
    requires
        s.phase == SyncPhase::FolderGate,
        0 <= i < s.mailboxes.len(),
        s.mailboxes[i].name == s.folder().remote_name@,
        forall|j: int|
            0 <= j < i ==> (#[trigger] s.mailboxes[j]).name != s.folder().remote_name@,
    ensures
        transition(s, SyncEvent::Cancelled(false)).1 == api_call(
            s,
            seq![email_query_call(Some(s.mailboxes[i].id), QUERY_LIMIT), email_get_call()],
            state_token(s.folder().highest_modseq),
        ),
{
    lemma_mailbox_index(s.mailboxes, s.folder().remote_name@, 0, i);
}

proof fn lemma_mailbox_index(mailboxes: Seq<MailboxView>, name: Seq<char>, from: int, at: int)
    requires
        0 <= from <= at < mailboxes.len(),
        mailboxes[at].name == name,
        forall|j: int| from <= j < at ==> (#[trigger] mailboxes[j]).name != name,
    ensures
        mailbox_index(mailboxes, name, from) == at,
    decreases at - from,
{
    if from < at {
        assert(mailboxes[from].name != name);
        lemma_mailbox_index(mailboxes, name, from + 1, at);
    }
}

/// A changed folder tree is told of exactly where the mailboxes differ from
/// the folders that were stored before the upserts: the comparison is made
/// before the first upsert, kept through the hierarchy sync, and decides at
/// its end; nothing else sends the event.
pub proof fn law_tree_change_is_told_where_it_differs(s: SyncState, event: SyncEvent)
    requires
        s.well_formed(),
        answers(s.phase, event),
    ensures
        ({
            let t = transition(s, event);
            let tells = t.1 == SyncActionView::Emit(
                EngineEventView::FolderTreeChanged { account: s.account },
            );
            &&& s.phase == SyncPhase::ReadingTree ==> t.0.tree_changed == (mailbox_tree(
                s.mailboxes,
            ) != stored_tree(listed(event->Folders_0)))
            &&& s.phase != SyncPhase::ReadingTree ==> t.0.tree_changed == s.tree_changed
            &&& tells ==> s.tree_changed && !s.polling && (s.phase == SyncPhase::ListingFolders
                || s.phase == SyncPhase::LoadingFolder)
            &&& (s.phase == SyncPhase::ListingFolders || s.phase == SyncPhase::LoadingFolder)
                && t.0.phase != SyncPhase::LoadingFolder && !s.polling ==> (tells
                <==> s.tree_changed)
        }),
{
}

/// While a pass is under way its folders stay the same, and the position
/// never moves by more than one folder: none is skipped and none comes twice.
pub proof fn law_pass_takes_each_folder_in_turn(s: SyncState, event: SyncEvent)
    requires
        s.well_formed(),
        answers(s.phase, event),
        s.phase == SyncPhase::FolderGate || s.phase == SyncPhase::Querying || s.phase
            == SyncPhase::Ingesting || s.phase == SyncPhase::Summarizing || s.phase
            == SyncPhase::AnnouncingMail || s.phase == SyncPhase::StoringCursor,
    ensures
        transition(s, event).0.rows == s.rows,
        transition(s, event).0.phase == SyncPhase::FolderGate ==> transition(s, event).0.next
            == s.next + 1,
        transition(s, event).0.phase == SyncPhase::PollPause ==> s.next + 1 == s.rows.len(),
        transition(s, event).0.next == s.next || transition(s, event).0.phase
            == SyncPhase::FolderGate,
{
}

/// New mail is told of exactly where the store inserted rows, with their
/// number and the counts of the folder's summary.
pub proof fn law_inserted_mail_is_told_of(
    s: SyncState,
    stats: IngestStats,
    found: Result<Vec<FolderSummary>, StoreError>,
)
    requires
        s.phase == SyncPhase::Ingesting,
    ensures
        ({
            let settled = transition(s, SyncEvent::Ingested(Ok(stats)));
            &&& (settled.0.phase == SyncPhase::Summarizing <==> stats.inserted > 0)
            &&& stats.inserted > 0 ==> transition(settled.0, SyncEvent::Folders(found)).1
                == SyncActionView::Emit(
                EngineEventView::MailArrived {
                    account: s.account,
                    folder: s.folder().id,
                    summary: folder_delta(
                        listed(found),
                        s.folder().id,
                        counted(stats.inserted as nat),
                    ),
                },
            )
        }),
{
}

/// A stored cursor survives the trip over the wire: the state token that is
/// sent for it reads back as the same cursor. No token is sent for cursor
/// zero.
pub proof fn law_state_token_round_trip(cursor: u64)
    ensures
        cursor > 0 ==> token_cursor(state_token(cursor)) == Some(cursor),
        cursor == 0 ==> state_token(cursor) is None,
{
    law_decimal_reads_back(cursor);
}

/// How a cycle begins: unless cancelled it announces `Connecting`, then
/// discovers the session of the host within half a minute, announces
/// `Authenticating` and `Syncing`, and asks for the mailboxes. Nothing of the
/// state changes meanwhile but the phase and the session.
pub proof fn law_cycle_begins(s: SyncState, reply: HttpReply<JmapSession>, what: String)
    ensures
        s.phase == SyncPhase::CycleGate ==> transition(s, SyncEvent::Cancelled(true)) == (
            SyncState { phase: SyncPhase::Stopped, ..s },
            SyncActionView::Stop,
        ),
        s.phase == SyncPhase::CycleGate ==> transition(s, SyncEvent::Cancelled(false)) == (
            SyncState { phase: SyncPhase::Connecting, ..s },
            SyncActionView::Announce {
                state: ConnectionState::Connecting,
                event: EngineEventView::AccountConnection {
                    account: s.account,
                    state: ConnectionState::Connecting,
                },
            },
        ),
        s.phase == SyncPhase::Connecting ==> transition(s, SyncEvent::Done) == (
            SyncState { phase: SyncPhase::Discovering, ..s },
            SyncActionView::Discover {
                url: "https://"@ + s.host + "/.well-known/jmap"@,
                authorization: "Bearer "@ + s.token,
                timeout_ms: 30_000,
            },
        ),
        s.phase == SyncPhase::Discovering ==> transition(s, SyncEvent::NoHttpClient(what)) == (
            SyncState { phase: SyncPhase::Disconnecting, ..s },
            SyncActionView::Disconnect {
                error: SyncErrorView::Protocol("http client: "@ + what@),
                event: EngineEventView::AccountConnection {
                    account: s.account,
                    state: ConnectionState::Disconnected,
                },
            },
        ),
        s.phase == SyncPhase::Discovering ==> match exchange_error(
            reply,
            "session discovery returned "@,
            "session parse: "@,
        ) {
            Some(error) => transition(s, SyncEvent::Discovered(reply)) == (
                SyncState { phase: SyncPhase::Disconnecting, ..s },
                SyncActionView::Disconnect {
                    error,
                    event: EngineEventView::AccountConnection {
                        account: s.account,
                        state: ConnectionState::Disconnected,
                    },
                },
            ),
            None => transition(s, SyncEvent::Discovered(reply)) == (
                SyncState {
                    phase: SyncPhase::Authenticating,
                    api_url: Some((reply->body->Ok_0).api_url@),
                    ..s
                },
                SyncActionView::Announce {
                    state: ConnectionState::Authenticating,
                    event: EngineEventView::AccountConnection {
                        account: s.account,
                        state: ConnectionState::Authenticating,
                    },
                },
            ),
        },
        s.phase == SyncPhase::Authenticating ==> transition(s, SyncEvent::Done) == (
            SyncState { phase: SyncPhase::Syncing, ..s },
            SyncActionView::Announce {
                state: ConnectionState::Syncing,
                event: EngineEventView::AccountConnection {
                    account: s.account,
                    state: ConnectionState::Syncing,
                },
            },
        ),
        s.phase == SyncPhase::Syncing && s.api_url is Some ==> transition(s, SyncEvent::Done) == (
            SyncState { phase: SyncPhase::FetchingMailboxes, ..s },
            SyncActionView::Call {
                url: s.api_url->Some_0,
                authorization: "Bearer "@ + s.token,
                using: seq!["urn:ietf:params:jmap:core"@, "urn:ietf:params:jmap:mail"@],
                calls: seq![mailbox_get_call()],
                since_state: None,
            },
        ),
{
}

/// A cycle whose mailbox list is refused, unreadable or missing fails, with
/// an error that says so.
pub proof fn law_missing_mailboxes_fail_the_cycle(s: SyncState, reply: HttpReply<JmapResponse>)
    requires
        s.phase == SyncPhase::FetchingMailboxes,
    ensures
        ({
            let t = transition(s, SyncEvent::Responded(reply));
            let refused = exchange_error(
                reply,
                "JMAP API returned "@,
                "JMAP response parse: "@,
            );
            let list = method_list(
                json_views((reply->body->Ok_0).method_responses@),
                "Mailbox/get"@,
            );
            let error = match refused {
                Some(error) => Some(error),
                None => match list {
                    Ok(Some(_)) => None,
                    Ok(None) => Some(
                        SyncErrorView::Protocol("Mailbox/get: no method response found"@),
                    ),
                    Err(fault) => Some(fault_error("Mailbox/get"@, fault)),
                },
            };
            match error {
                Some(error) => {
                    &&& t.0 == (SyncState { phase: SyncPhase::Disconnecting, ..s })
                    &&& t.1 == (SyncActionView::Disconnect {
                        error,
                        event: EngineEventView::AccountConnection {
                            account: s.account,
                            state: ConnectionState::Disconnected,
                        },
                    })
                },
                None => t.0.phase == SyncPhase::ReadingTree,
            }
        }),
{
}

/// The mailboxes of a cycle are those of the response, one for one and in
/// order; the stored folders are listed next.
pub proof fn law_mailboxes_are_those_of_the_response(
    s: SyncState,
    reply: HttpReply<JmapResponse>,
    list: Seq<JsonView>,
)
    requires
        s.phase == SyncPhase::FetchingMailboxes,
        exchange_error(reply, "JMAP API returned "@, "JMAP response parse: "@) is None,
        method_list(json_views((reply->body->Ok_0).method_responses@), "Mailbox/get"@) == Ok::<
            Option<Seq<JsonView>>,
            crate::jmap_parse::ResponseFault,
        >(Some(list)),
    ensures
        ({
            let t = transition(s, SyncEvent::Responded(reply));
            &&& t.0 == (SyncState {
                phase: SyncPhase::ReadingTree,
                mailboxes: t.0.mailboxes,
                ..s
            })
            &&& t.0.mailboxes.len() == list.len()
            &&& forall|i: int|
                0 <= i < list.len() ==> #[trigger] t.0.mailboxes[i] == mailbox_of(list[i])
            &&& t.1 == SyncActionView::ListFolders(s.account)
        }),
{
}

/// Whether a stored folder has the name of the mailbox, and the role that
/// this name gives.
pub open spec fn has_folder(mailbox: MailboxView, stored: Seq<FolderSummary>) -> bool {
    exists|j: int|
        0 <= j < stored.len() && (#[trigger] stored[j]).remote_name@ == mailbox.name
            && stored[j].role == jmap_role(mailbox.name)
}

/// Whether a mailbox has the name of the stored folder, and this name gives
/// the folder's role.
pub open spec fn has_mailbox(folder: FolderSummary, mailboxes: Seq<MailboxView>) -> bool {
    exists|i: int|
        0 <= i < mailboxes.len() && (#[trigger] mailboxes[i]).name == folder.remote_name@
            && jmap_role(mailboxes[i].name) == folder.role
}

/// The tree has changed exactly where a mailbox has no stored folder or a
/// stored folder has no mailbox.
pub proof fn law_tree_changes_with_an_unmatched_item(s: SyncState, folders: Vec<FolderSummary>)
    requires
        s.phase == SyncPhase::ReadingTree,
    ensures
        transition(s, SyncEvent::Folders(Ok(folders))).0.tree_changed <==> {
            ||| exists|i: int|
                0 <= i < s.mailboxes.len() && !has_folder(#[trigger] s.mailboxes[i], folders@)
            ||| exists|j: int|
                0 <= j < folders@.len() && !has_mailbox(#[trigger] folders@[j], s.mailboxes)
        },
{
    let stored = folders@;
    let left = s.mailboxes.map_values(|m: MailboxView| (m.name, mailbox_role(m)));
    let right = stored.map_values(|f: FolderSummary| (f.remote_name@, f.role));
    assert forall|i: int| 0 <= i < s.mailboxes.len() implies (has_folder(
        #[trigger] s.mailboxes[i],
        stored,
    ) <==> stored_tree(stored).contains(left[i])) by {
        if has_folder(s.mailboxes[i], stored) {
            let j = choose|j: int|
                0 <= j < stored.len() && (#[trigger] stored[j]).remote_name@ == s.mailboxes[i].name
                    && stored[j].role == jmap_role(s.mailboxes[i].name);
            assert(right[j] == left[i]);
            assert(right.contains(left[i]));
        }
        if stored_tree(stored).contains(left[i]) {
            assert(right.contains(left[i]));
            let j = choose|j: int| 0 <= j < right.len() && right[j] == left[i];
            assert(stored[j].remote_name@ == s.mailboxes[i].name);
        }
    }
    assert forall|j: int| 0 <= j < stored.len() implies (has_mailbox(
        #[trigger] stored[j],
        s.mailboxes,
    ) <==> mailbox_tree(s.mailboxes).contains(right[j])) by {
        if has_mailbox(stored[j], s.mailboxes) {
            let i = choose|i: int|
                0 <= i < s.mailboxes.len() && (#[trigger] s.mailboxes[i]).name
                    == stored[j].remote_name@ && jmap_role(s.mailboxes[i].name) == stored[j].role;
            assert(left[i] == right[j]);
            assert(left.contains(right[j]));
        }
        if mailbox_tree(s.mailboxes).contains(right[j]) {
            assert(left.contains(right[j]));
            let i = choose|i: int| 0 <= i < left.len() && left[i] == right[j];
            assert(s.mailboxes[i].name == stored[j].remote_name@);
        }
    }
    let a = mailbox_tree(s.mailboxes);
    let b = stored_tree(stored);
    if exists|i: int| 0 <= i < s.mailboxes.len() && !has_folder(#[trigger] s.mailboxes[i], stored) {
        let i = choose|i: int|
            0 <= i < s.mailboxes.len() && !has_folder(#[trigger] s.mailboxes[i], stored);
        assert(left.contains(left[i]));
        assert(a.contains(left[i]) && !b.contains(left[i]));
    } else if exists|j: int|
        0 <= j < stored.len() && !has_mailbox(#[trigger] stored[j], s.mailboxes) {
        let j = choose|j: int|
            0 <= j < stored.len() && !has_mailbox(#[trigger] stored[j], s.mailboxes);
        assert(right.contains(right[j]));
        assert(b.contains(right[j]) && !a.contains(right[j]));
    } else {
        assert forall|x: (Seq<char>, Option<FolderRole>)| a.contains(x) <==> b.contains(x) by {
            if a.contains(x) {
                assert(left.contains(x));
                let i = choose|i: int| 0 <= i < left.len() && left[i] == x;
                assert(has_folder(s.mailboxes[i], stored));
            }
            if b.contains(x) {
                assert(right.contains(x));
                let j = choose|j: int| 0 <= j < right.len() && right[j] == x;
                assert(has_mailbox(stored[j], s.mailboxes));
            }
        }
        assert(a =~= b);
    }
    let t = transition(s, SyncEvent::Folders(Ok(folders)));
    assert(t.0.tree_changed <==> a != b);
}

/// Once the stored folders are compared, the mailboxes are upserted from the
/// first on, and without any the folders are listed for the first pass;
/// nothing else changes. Folders that cannot be listed count as none stored:
/// every mailbox is then a change.
pub proof fn law_upserts_begin_with_the_first_mailbox(
    s: SyncState,
    found: Result<Vec<FolderSummary>, StoreError>,
)
    requires
        s.phase == SyncPhase::ReadingTree,
    ensures
        ({
            let t = transition(s, SyncEvent::Folders(found));
            &&& found is Err ==> (t.0.tree_changed <==> s.mailboxes.len() > 0)
            &&& s.mailboxes.len() == 0 ==> t == (
                SyncState {
                    phase: SyncPhase::ListingFolders,
                    polling: false,
                    tree_changed: t.0.tree_changed,
                    ..s
                },
                SyncActionView::ListFolders(s.account),
            )
            &&& s.mailboxes.len() > 0 ==> t == (
                SyncState {
                    phase: SyncPhase::Upserting,
                    next: 0,
                    tree_changed: t.0.tree_changed,
                    ..s
                },
                SyncActionView::Upsert(folder_for(s.account, s.mailboxes[0])),
            )
        }),
{
    if found is Err {
        let left = s.mailboxes.map_values(|m: MailboxView| (m.name, mailbox_role(m)));
        let a = mailbox_tree(s.mailboxes);
        let b = stored_tree(listed(found));
        if s.mailboxes.len() > 0 {
            assert(left.contains(left[0]));
            assert(a.contains(left[0]) && !b.contains(left[0]));
        } else {
            assert(a =~= b);
        }
    }
}

/// What is stored of a mailbox: its own name, the role that this name gives,
/// its JMAP role as an attribute, a slash as delimiter, and no cursors yet.
pub proof fn law_folder_stored_for_a_mailbox(account: AccountId, mailbox: MailboxView)
    ensures
        ({
            let f = folder_for(account, mailbox);
            &&& f.account == account
            &&& f.remote_name == mailbox.name
            &&& f.role == jmap_role(mailbox.name)
            &&& f.delimiter == "/"@
            &&& f.uid_validity == 0
            &&& f.highest_modseq == 0
            &&& mailbox.role is None ==> f.attributes.len() == 0
            &&& mailbox.role matches Some(role) ==> f.attributes == seq!["role:"@ + role]
        }),
{
}

/// After an upsert the next mailbox is upserted, and after the last one the
/// folders are listed for the first pass; nothing else changes.
pub proof fn law_upserts_go_on(s: SyncState)
    requires
        s.phase == SyncPhase::Upserting,
        s.next < s.mailboxes.len(),
    ensures
        s.next + 1 < s.mailboxes.len() ==> transition(s, SyncEvent::Done) == (
            SyncState { next: s.next + 1, ..s },
            SyncActionView::Upsert(folder_for(s.account, s.mailboxes[s.next as int + 1])),
        ),
        s.next + 1 == s.mailboxes.len() ==> transition(s, SyncEvent::Done) == (
            SyncState { phase: SyncPhase::ListingFolders, polling: false, ..s },
            SyncActionView::ListFolders(s.account),
        ),
{
}

/// The rows to load are those of the listed folders, one for one and in
/// order, beginning with the first; rows of an earlier pass are dropped.
/// Folders that cannot be listed count as none.
pub proof fn law_listed_folders_are_loaded(
    s: SyncState,
    found: Result<Vec<FolderSummary>, StoreError>,
)
    requires
        s.phase == SyncPhase::ListingFolders,
    ensures
        ({
            let t = transition(s, SyncEvent::Folders(found));
            let folders = match found {
                Ok(folders) => folders@,
                Err(_) => Seq::empty(),
            };
            &&& t.0 == (SyncState {
                phase: t.0.phase,
                ids: t.0.ids,
                rows: Seq::empty(),
                next: t.0.next,
                ..s
            })
            &&& t.0.ids.len() == folders.len()
            &&& forall|i: int| 0 <= i < folders.len() ==> #[trigger] t.0.ids[i] == folders[i].id
            &&& folders.len() > 0 ==> t.0.phase == SyncPhase::LoadingFolder && t.0.next == 0
                && t.1 == SyncActionView::LoadFolder(folders[0].id)
            &&& folders.len() == 0 && !s.polling && s.tree_changed ==> t.0.phase
                == SyncPhase::AnnouncingTree && t.1 == SyncActionView::Emit(
                EngineEventView::FolderTreeChanged { account: s.account },
            )
            &&& folders.len() == 0 && (s.polling || !s.tree_changed) ==> t.0.phase
                == SyncPhase::PollPause && t.1 == (SyncActionView::Wait { ms: 300_000 })
        }),
{
}

/// Each loaded row joins the rows of the pass at the end, and one that cannot
/// be loaded is left out; then the next row is loaded. Behind the last one, a
/// changed tree is told of before a first pass, and otherwise the pass begins.
pub proof fn law_loaded_rows_make_the_pass(s: SyncState, loaded: Result<FolderRow, StoreError>)
    requires
        s.phase == SyncPhase::LoadingFolder,
        s.next < s.ids.len(),
    ensures
        ({
            let t = transition(s, SyncEvent::Folder(loaded));
            let rows = match loaded {
                Ok(row) => s.rows.push(row),
                Err(_) => s.rows,
            };
            &&& t.0 == (SyncState { phase: t.0.phase, rows, next: t.0.next, ..s })
            &&& s.next + 1 < s.ids.len() ==> t.0.phase == SyncPhase::LoadingFolder && t.0.next
                == s.next + 1 && t.1 == SyncActionView::LoadFolder(s.ids[s.next as int + 1])
            &&& s.next + 1 == s.ids.len() && !s.polling && s.tree_changed ==> t.0.phase
                == SyncPhase::AnnouncingTree && t.1 == SyncActionView::Emit(
                EngineEventView::FolderTreeChanged { account: s.account },
            )
            &&& s.next + 1 == s.ids.len() && (s.polling || !s.tree_changed) && rows.len() > 0
                ==> t.0.phase == SyncPhase::FolderGate && t.0.next == 0 && t.1
                == SyncActionView::CheckCancelled
            &&& s.next + 1 == s.ids.len() && (s.polling || !s.tree_changed) && rows.len() == 0
                ==> t.0.phase == SyncPhase::PollPause && t.1 == (SyncActionView::Wait {
                ms: 300_000,
            })
        }),
{
}

/// Whatever leads into a pass, a first or a polling one, the pass begins with
/// the folder at position zero of the rows loaded for it, and is left out
/// only where no row was loaded.
pub proof fn law_pass_begins_with_the_first_folder(s: SyncState, event: SyncEvent)
    requires
        s.well_formed(),
        answers(s.phase, event),
        s.phase == SyncPhase::ListingFolders || s.phase == SyncPhase::LoadingFolder || s.phase
            == SyncPhase::AnnouncingTree,
    ensures
        ({
            let t = transition(s, event);
            &&& t.0.phase == SyncPhase::FolderGate ==> t.0.next == 0 && t.0.rows.len() > 0
                && t.0.folder() == t.0.rows[0]
            &&& t.0.phase == SyncPhase::PollPause ==> t.0.rows.len() == 0
            &&& t.0.phase == SyncPhase::FolderGate || t.0.phase == SyncPhase::PollPause
                || t.0.phase == SyncPhase::LoadingFolder || t.0.phase == SyncPhase::AnnouncingTree
                || t.0.phase == SyncPhase::Disconnecting
        }),
{
}

/// No other answer leads to the folder at position zero: within a pass the
/// position only grows, so each loaded folder is taken up once.
pub proof fn law_only_a_new_pass_starts_over(s: SyncState, event: SyncEvent)
    requires
        s.well_formed(),
        answers(s.phase, event),
        transition(s, event).0.phase == SyncPhase::FolderGate,
    ensures
        transition(s, event).1 == SyncActionView::CheckCancelled,
        ({
            let begins = s.phase == SyncPhase::ListingFolders || s.phase
                == SyncPhase::LoadingFolder || s.phase == SyncPhase::AnnouncingTree;
            transition(s, event).0.next == if begins {
                0
            } else {
                s.next + 1
            }
        }),
{
}

/// A changed tree that the bus takes is followed by the pass; a closed bus
/// fails the cycle.
pub proof fn law_pass_follows_the_told_tree(s: SyncState)
    requires
        s.phase == SyncPhase::AnnouncingTree,
    ensures
        s.rows.len() > 0 ==> transition(s, SyncEvent::Delivered(true)) == (
            SyncState { phase: SyncPhase::FolderGate, next: 0, ..s },
            SyncActionView::CheckCancelled,
        ),
        s.rows.len() == 0 ==> transition(s, SyncEvent::Delivered(true)) == (
            SyncState { phase: SyncPhase::PollPause, ..s },
            SyncActionView::Wait { ms: 300_000 },
        ),
        transition(s, SyncEvent::Delivered(false)) == (
            SyncState { phase: SyncPhase::Disconnecting, ..s },
            SyncActionView::Disconnect {
                error: SyncErrorView::Protocol("bus closed"@),
                event: EngineEventView::AccountConnection {
                    account: s.account,
                    state: ConnectionState::Disconnected,
                },
            },
        ),
{
}

/// A folder that is taken up is asked for its newest 256 messages, by the id
/// of the first mailbox of its name or else by its name, with its cursor as
/// state token unless that is zero. A cancelled service ends the cycle
/// instead, with the reconnect delay back at 250 ms.
pub proof fn law_folder_is_queried(s: SyncState)
    requires
        s.phase == SyncPhase::FolderGate,
        s.api_url is Some,
        s.next < s.rows.len(),
    ensures
        transition(s, SyncEvent::Cancelled(true)) == (
            SyncState { phase: SyncPhase::CycleGate, backoff_ms: 250, ..s },
            SyncActionView::CheckCancelled,
        ),
        ({
            let t = transition(s, SyncEvent::Cancelled(false));
            let row = s.rows[s.next as int];
            &&& t.0 == (SyncState { phase: SyncPhase::Querying, ..s })
            &&& t.1 matches SyncActionView::Call { url, authorization, using, calls, since_state }
                && {
                &&& url == s.api_url->Some_0
                &&& authorization == "Bearer "@ + s.token
                &&& using == seq!["urn:ietf:params:jmap:core"@, "urn:ietf:params:jmap:mail"@]
                &&& calls.len() == 2
                &&& calls[1] == email_get_call()
                &&& forall|i: int|
                    0 <= i < s.mailboxes.len() && (#[trigger] s.mailboxes[i]).name
                        == row.remote_name@ && (forall|j: int|
                        0 <= j < i ==> (#[trigger] s.mailboxes[j]).name != row.remote_name@)
                        ==> calls[0] == email_query_call(Some(s.mailboxes[i].id), 256)
                &&& (forall|j: int|
                    0 <= j < s.mailboxes.len() ==> (#[trigger] s.mailboxes[j]).name
                        != row.remote_name@) ==> calls[0] == email_query_call(
                    Some(row.remote_name@),
                    256,
                )
                &&& row.highest_modseq == 0 ==> since_state is None
                &&& row.highest_modseq > 0 ==> since_state == Some(
                    decimal(row.highest_modseq as nat),
                )
            }
        }),
{
    let name = s.rows[s.next as int].remote_name@;
    assert forall|i: int|
        0 <= i < s.mailboxes.len() && (#[trigger] s.mailboxes[i]).name == name && (forall|j: int|
            0 <= j < i ==> (#[trigger] s.mailboxes[j]).name != name) implies mailbox_id(
        s.mailboxes,
        name,
    ) == s.mailboxes[i].id by {
        lemma_mailbox_index(s.mailboxes, name, 0, i);
    }
    if forall|j: int| 0 <= j < s.mailboxes.len() ==> (#[trigger] s.mailboxes[j]).name != name {
        lemma_no_mailbox_index(s.mailboxes, name, 0);
    }
}

proof fn lemma_no_mailbox_index(mailboxes: Seq<MailboxView>, name: Seq<char>, from: int)
    requires
        0 <= from <= mailboxes.len(),
        forall|j: int| 0 <= j < mailboxes.len() ==> (#[trigger] mailboxes[j]).name != name,
    ensures
        mailbox_index(mailboxes, name, from) == mailboxes.len(),
    decreases mailboxes.len() - from,
{
    if from < mailboxes.len() {
        assert(mailboxes[from].name != name);
        lemma_no_mailbox_index(mailboxes, name, from + 1);
    }
}

/// What follows the folder in hand, where nothing is left to do for it: the
/// next folder, or behind the last one the pause of five minutes.
pub open spec fn next_folder(s: SyncState, t: Transition) -> bool {
    if s.next + 1 < s.rows.len() {
        t == (
            SyncState { phase: SyncPhase::FolderGate, next: s.next + 1, ..s },
            SyncActionView::CheckCancelled,
        )
    } else {
        t == (
            SyncState { phase: SyncPhase::PollPause, ..s },
            SyncActionView::Wait { ms: 300_000 },
        )
    }
}

/// The messages of a response are ingested into the folder in hand, one for
/// one and in order, and the state token of the response becomes the cursor
/// to store. A response without messages leads on to the next folder.
pub proof fn law_found_messages_are_ingested(
    s: SyncState,
    reply: HttpReply<JmapResponse>,
)
    requires
        s.phase == SyncPhase::Querying,
        s.next < s.rows.len(),
        exchange_error(reply, "JMAP API returned "@, "JMAP response parse: "@) is None,
    ensures
        ({
            let t = transition(s, SyncEvent::Responded(reply));
            let response = reply->body->Ok_0;
            let found = method_list(json_views(response.method_responses@), "Email/get"@);
            &&& found matches Ok(None) ==> next_folder(s, t)
            &&& found matches Ok(Some(list)) ==> list.len() == 0 ==> next_folder(s, t)
            &&& found matches Ok(Some(list)) ==> list.len() > 0 ==> {
                &&& t.0 == (SyncState {
                    phase: SyncPhase::Ingesting,
                    cursor: match response.new_state {
                        Some(token) => unsigned_value(token@),
                        None => None,
                    },
                    ..s
                })
                &&& t.1 matches SyncActionView::Ingest { folder, emails } && {
                    &&& folder == s.rows[s.next as int].id
                    &&& emails.len() == list.len()
                    &&& forall|i: int|
                        0 <= i < list.len() ==> #[trigger] emails[i] == email_of(list[i])
                }
            }
        }),
{
}

/// A query that is refused, or whose answer cannot be read, fails the cycle
/// with an error that says so.
pub proof fn law_failed_query_fails_the_cycle(s: SyncState, reply: HttpReply<JmapResponse>)
    requires
        s.phase == SyncPhase::Querying,
    ensures
        ({
            let t = transition(s, SyncEvent::Responded(reply));
            let refused = exchange_error(
                reply,
                "JMAP API returned "@,
                "JMAP response parse: "@,
            );
            let list = method_list(
                json_views((reply->body->Ok_0).method_responses@),
                "Email/get"@,
            );
            let error = match refused {
                Some(error) => Some(error),
                None => match list {
                    Ok(_) => None,
                    Err(fault) => Some(fault_error("Email/get"@, fault)),
                },
            };
            match error {
                Some(error) => t == (
                    SyncState { phase: SyncPhase::Disconnecting, ..s },
                    SyncActionView::Disconnect {
                        error,
                        event: EngineEventView::AccountConnection {
                            account: s.account,
                            state: ConnectionState::Disconnected,
                        },
                    },
                ),
                None => t.0.phase != SyncPhase::Disconnecting,
            }
        }),
{
}

/// The new mail that an event tells of is the number of rows that the store
/// inserted, up to the largest 32-bit number, with the counts of the first
/// summary of the folder, or zero where the listing holds none. A batch that
/// inserted nothing is not told of, and one that the store refused fails the
/// cycle.
pub proof fn law_new_mail_is_counted(
    s: SyncState,
    stats: IngestStats,
    found: Result<Vec<FolderSummary>, StoreError>,
    error: StoreError,
)
    requires
        s.phase == SyncPhase::Ingesting,
        s.next < s.rows.len(),
    ensures
        ({
            let stored = transition(s, SyncEvent::Ingested(Ok(stats)));
            let told = transition(stored.0, SyncEvent::Folders(found));
            let id = s.rows[s.next as int].id;
            &&& stats.inserted == 0 ==> settles_batch(s, stored)
            &&& stats.inserted > 0 ==> {
                &&& stored.1 == SyncActionView::ListFolders(s.account)
                &&& stored.0 == (SyncState {
                    phase: SyncPhase::Summarizing,
                    new_count: stored.0.new_count,
                    ..s
                })
                &&& told.0 == (SyncState { phase: SyncPhase::AnnouncingMail, ..stored.0 })
                &&& told.1 matches SyncActionView::Emit(
                    EngineEventView::MailArrived { account, folder, summary },
                ) && {
                    &&& account == s.account
                    &&& folder == id
                    &&& stats.inserted <= u32::MAX ==> summary.new as int == stats.inserted as int
                    &&& stats.inserted > u32::MAX ==> summary.new == u32::MAX
                    &&& found is Err ==> summary.total == 0 && summary.unread == 0
                    &&& found matches Ok(folders) ==> (forall|i: int|
                        0 <= i < folders@.len() && (#[trigger] folders@[i]).id == id && (forall|
                            j: int,
                        |
                            0 <= j < i ==> (#[trigger] folders@[j]).id != id) ==> summary.total
                            == folders@[i].total && summary.unread == folders@[i].unread)
                    &&& found matches Ok(folders) ==> (forall|j: int|
                        0 <= j < folders@.len() ==> (#[trigger] folders@[j]).id != id)
                        ==> summary.total == 0 && summary.unread == 0
                }
            }
        }),
        transition(s, SyncEvent::Ingested(Err(error))) == (
            SyncState { phase: SyncPhase::Disconnecting, ..s },
            SyncActionView::Disconnect {
                error: SyncErrorView::Store(error@),
                event: EngineEventView::AccountConnection {
                    account: s.account,
                    state: ConnectionState::Disconnected,
                },
            },
        ),
{
    let id = s.rows[s.next as int].id;
    let folders = listed(found);
    assert forall|i: int|
        0 <= i < folders.len() && (#[trigger] folders[i]).id == id && (forall|j: int|
            0 <= j < i ==> (#[trigger] folders[j]).id != id) implies summary_index(
        folders,
        id,
        0,
    ) == i by {
        lemma_summary_index(folders, id, 0, i);
    }
    if forall|j: int| 0 <= j < folders.len() ==> (#[trigger] folders[j]).id != id {
        lemma_summary_index(folders, id, 0, folders.len() as int);
    }
}

/// What follows a batch that is stored and told of: its cursor is stored, or
/// without one the next folder is taken up.
pub open spec fn settles_batch(s: SyncState, t: Transition) -> bool {
    match s.cursor {
        Some(cursor) => t == (
            SyncState { phase: SyncPhase::StoringCursor, ..s },
            SyncActionView::StoreCursor {
                folder: s.rows[s.next as int].id,
                uid_validity: 0,
                highest_modseq: Some(cursor),
            },
        ),
        None => next_folder(s, t),
    }
}

proof fn lemma_summary_index(
    summaries: Seq<FolderSummary>,
    folder: FolderId,
    from: int,
    at: int,
)
    requires
        0 <= from <= at <= summaries.len(),
        at < summaries.len() ==> summaries[at].id == folder,
        forall|j: int| 0 <= j < at ==> (#[trigger] summaries[j]).id != folder,
    ensures
        summary_index(summaries, folder, from) == at,
    decreases at - from,
{
    if from < at {
        assert(summaries[from].id != folder);
        lemma_summary_index(summaries, folder, from + 1, at);
    }
}

/// Whether or not the bus took the event of new mail, the batch is settled;
/// and once its cursor is stored, the next folder is taken up.
pub proof fn law_told_mail_leads_on(s: SyncState, delivered: bool)
    requires
        s.next < s.rows.len(),
    ensures
        s.phase == SyncPhase::AnnouncingMail ==> settles_batch(
            s,
            transition(s, SyncEvent::Delivered(delivered)),
        ),
        s.phase == SyncPhase::StoringCursor ==> next_folder(s, transition(s, SyncEvent::Done)),
{
}

/// After the pause, unless cancelled, a polling pass announces `Syncing` and
/// lists the folders again; cancelled, the cycle ends with the reconnect
/// delay back at 250 ms.
pub proof fn law_polling_goes_on(s: SyncState)
    ensures
        s.phase == SyncPhase::PollPause ==> transition(s, SyncEvent::Woken { cancelled: true })
            == (
            SyncState { phase: SyncPhase::CycleGate, backoff_ms: 250, ..s },
            SyncActionView::CheckCancelled,
        ),
        s.phase == SyncPhase::PollPause ==> transition(s, SyncEvent::Woken { cancelled: false })
            == (
            SyncState { phase: SyncPhase::PollSyncing, ..s },
            SyncActionView::Announce {
                state: ConnectionState::Syncing,
                event: EngineEventView::AccountConnection {
                    account: s.account,
                    state: ConnectionState::Syncing,
                },
            },
        ),
        s.phase == SyncPhase::PollSyncing ==> transition(s, SyncEvent::Done) == (
            SyncState { phase: SyncPhase::ListingFolders, polling: true, ..s },
            SyncActionView::ListFolders(s.account),
        ),
{
}

/// After a failure the service waits for the delay that it has reached, and
/// then, unless cancelled, looks for cancellation and begins anew; the next
/// delay is twice as long, but never above five minutes.
pub proof fn law_reconnect_delay_grows(s: SyncState)
    requires
        250 <= s.backoff_ms <= 300_000,
    ensures
        s.phase == SyncPhase::Disconnecting ==> transition(s, SyncEvent::Done) == (
            SyncState { phase: SyncPhase::BackingOff, ..s },
            SyncActionView::Wait { ms: s.backoff_ms },
        ),
        s.phase == SyncPhase::BackingOff ==> transition(s, SyncEvent::Woken { cancelled: true })
            == (SyncState { phase: SyncPhase::Stopped, ..s }, SyncActionView::Stop),
        s.phase == SyncPhase::BackingOff ==> transition(s, SyncEvent::Woken { cancelled: false })
            == (
            SyncState {
                phase: SyncPhase::CycleGate,
                backoff_ms: if s.backoff_ms <= 150_000 {
                    (2 * s.backoff_ms) as u64
                } else {
                    300_000
                },
                ..s
            },
            SyncActionView::CheckCancelled,
        ),
{
}

/// Which events the service takes: the answer to its last action, whatever
/// the answer says; an HTTP answer carries a status of three digits.
pub proof fn law_service_takes_the_awaited_event(phase: SyncPhase, event: SyncEvent)
    ensures
        answers(phase, event) <==> match event {
            SyncEvent::Done => phase == SyncPhase::Connecting || phase == SyncPhase::Authenticating
                || phase == SyncPhase::Syncing || phase == SyncPhase::Upserting || phase
                == SyncPhase::StoringCursor || phase == SyncPhase::PollSyncing || phase
                == SyncPhase::Disconnecting,
            SyncEvent::Cancelled(_) => phase == SyncPhase::CycleGate || phase
                == SyncPhase::FolderGate,
            SyncEvent::NoHttpClient(_) => phase == SyncPhase::Discovering,
            SyncEvent::Discovered(HttpReply::Failed(_)) => phase == SyncPhase::Discovering,
            SyncEvent::Discovered(HttpReply::Answered { status, .. }) => phase
                == SyncPhase::Discovering && 100 <= status <= 999,
            SyncEvent::Responded(HttpReply::Failed(_)) => phase == SyncPhase::FetchingMailboxes
                || phase == SyncPhase::Querying,
            SyncEvent::Responded(HttpReply::Answered { status, .. }) => (phase
                == SyncPhase::FetchingMailboxes || phase == SyncPhase::Querying) && 100 <= status
                <= 999,
            SyncEvent::Folders(_) => phase == SyncPhase::ReadingTree || phase
                == SyncPhase::ListingFolders || phase == SyncPhase::Summarizing,
            SyncEvent::Folder(_) => phase == SyncPhase::LoadingFolder,
            SyncEvent::Delivered(_) => phase == SyncPhase::AnnouncingTree || phase
                == SyncPhase::AnnouncingMail,
            SyncEvent::Ingested(_) => phase == SyncPhase::Ingesting,
            SyncEvent::Woken { .. } => phase == SyncPhase::PollPause || phase
                == SyncPhase::BackingOff,
        },
{
}

/// A fresh service is about to begin a cycle, with the shortest reconnect
/// delay and nothing in hand.
pub proof fn law_fresh_service_has_nothing_in_hand(
    account: AccountId,
    host: Seq<char>,
    token: Seq<char>,
)
    ensures
        ({
            let s = SyncState::fresh(account, host, token);
            &&& s.account == account && s.host == host && s.token == token
            &&& s.phase == SyncPhase::CycleGate
            &&& s.backoff_ms == 250
            &&& s.api_url is None
            &&& s.mailboxes.len() == 0 && s.ids.len() == 0 && s.rows.len() == 0
            &&& s.next == 0 && !s.polling && !s.tree_changed && s.new_count == 0
            &&& s.cursor is None
        }),
{
}

/// What an action is seen as: its own fields.
pub proof fn law_actions_keep_their_fields<P>(action: SyncAction<P>)
    ensures
        match action {
            SyncAction::CheckCancelled => action.shown() == Some(SyncActionView::CheckCancelled),
            SyncAction::Announce { state, event } => action.shown() == Some(
                SyncActionView::Announce { state, event: event@ },
            ),
            SyncAction::Discover { call, timeout_ms } => action.shown() == Some(
                SyncActionView::Discover {
                    url: call.url@,
                    authorization: call.authorization@,
                    timeout_ms,
                },
            ),
            SyncAction::Call(call) => {
                &&& action.shown() matches Some(
                    SyncActionView::Call { url, authorization, using, calls, since_state },
                )
                &&& url == call.url@
                &&& authorization == call.authorization@
                &&& using.len() == call.request.using@.len()
                &&& forall|i: int|
                    0 <= i < using.len() ==> #[trigger] using[i] == call.request.using@[i]@
                &&& calls.len() == call.request.method_calls@.len()
                &&& forall|i: int|
                    0 <= i < calls.len() ==> #[trigger] calls[i] == call.request.method_calls@[i]@
                &&& match call.request.since_state {
                    Some(token) => since_state == Some(token@),
                    None => since_state is None,
                }
            },
            SyncAction::Upsert(folder) => action.shown() == Some(SyncActionView::Upsert(folder@)),
            SyncAction::ListFolders(account) => action.shown() == Some(
                SyncActionView::ListFolders(account),
            ),
            SyncAction::LoadFolder(folder) => action.shown() == Some(
                SyncActionView::LoadFolder(folder),
            ),
            SyncAction::Emit(event) => action.shown() == Some(SyncActionView::Emit(event@)),
            SyncAction::Ingest(_) => action.shown() is None,
            SyncAction::StoreCursor { folder, uid_validity, highest_modseq } => action.shown()
                == Some(SyncActionView::StoreCursor { folder, uid_validity, highest_modseq }),
            SyncAction::Disconnect { error, event } => action.shown() == Some(
                SyncActionView::Disconnect { error: error@, event: event@ },
            ),
            SyncAction::Wait { ms } => action.shown() == Some(SyncActionView::Wait { ms }),
            SyncAction::Stop => action.shown() == Some(SyncActionView::Stop),
        },
{
}

/// An action that hands over a batch is shown by nothing but the messages
/// that the batch stores, one for one, and every other action by its own
/// contents.
pub proof fn law_action_is_the_one_shown<P, F: Fn(&[u8]) -> P, C: SyncClock + ?Sized>(
    action: SyncAction<P>,
    view: SyncActionView,
    parse: F,
    clock: &C,
)
    requires
        action_is(action, view, parse, clock),
    ensures
        !(action is Ingest) ==> action.shown() == Some(view),
        action matches SyncAction::Ingest(batch) ==> (view matches SyncActionView::Ingest {
            folder,
            emails,
        } && batch.messages@.len() == emails.len() && forall|i: int|
            0 <= i < emails.len() ==> crate::ingest::stores(
                #[trigger] batch.messages@[i],
                emails[i],
                folder,
                parse,
                clock,
            )),
        view is Ingest <==> action is Ingest,
{
}

}
