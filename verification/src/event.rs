//! Events broadcast by the sync engines on the host-provided bus. Events are
//! hints, never source of truth.

use vstd::prelude::*;

use crate::error::{SyncError, SyncErrorView};
use crate::model::{AccountId, ConnectionState, FolderDelta, FolderId, MessageId, OutboxId};

verus! {

/// Events emitted by the sync engines.
#[derive(Clone, Debug)]
pub enum EngineEvent {
    /// Connection state machine transition.
    AccountConnection {
        /// Account.
        account: AccountId,
        /// New state.
        state: ConnectionState,
    },
    /// New mail arrived.
    MailArrived {
        /// Account.
        account: AccountId,
        /// Folder.
        folder: FolderId,
        /// Delta summary.
        summary: FolderDelta,
    },
    /// Messages changed/removed in a folder.
    MessagesChanged {
        /// Folder.
        folder: FolderId,
        /// Changed count.
        changed: u32,
        /// Removed count.
        removed: u32,
    },
    /// Flags changed on messages.
    FlagsChanged {
        /// Affected messages.
        messages: Vec<MessageId>,
    },
    /// Folder tree changed (LIST/Mailbox-get result differs).
    FolderTreeChanged {
        /// Account.
        account: AccountId,
    },
    /// A send attempt failed; retry scheduled.
    OutboxRetry {
        /// Outbox entry.
        id: OutboxId,
        /// Attempt number (1-based).
        attempt: u32,
        /// Delay until next attempt, in milliseconds.
        next_in: u64,
        /// Last error summary (no secrets).
        last_error: String,
    },
    /// Message sent and filed to Sent.
    MailSent {
        /// Outbox entry.
        id: OutboxId,
        /// Resulting message id.
        message: MessageId,
    },
    /// Sending failed.
    MailFailed {
        /// Outbox entry.
        id: OutboxId,
        /// Failure.
        error: SyncError,
        /// `true` = will not be retried.
        permanent: bool,
    },
}

/// The contents of an [`EngineEvent`].
#[verifier::ext_equal]
pub enum EngineEventView {
    AccountConnection { account: AccountId, state: ConnectionState },
    MailArrived { account: AccountId, folder: FolderId, summary: FolderDelta },
    MessagesChanged { folder: FolderId, changed: u32, removed: u32 },
    FlagsChanged { messages: Seq<MessageId> },
    FolderTreeChanged { account: AccountId },
    OutboxRetry { id: OutboxId, attempt: u32, next_in: u64, last_error: Seq<char> },
    MailSent { id: OutboxId, message: MessageId },
    MailFailed { id: OutboxId, error: SyncErrorView, permanent: bool },
}

impl View for EngineEvent {
    type V = EngineEventView;

    open spec fn view(&self) -> EngineEventView {
        match *self {
            EngineEvent::AccountConnection { account, state } => {
                EngineEventView::AccountConnection { account, state }
            },
            EngineEvent::MailArrived { account, folder, summary } => EngineEventView::MailArrived {
                account,
                folder,
                summary,
            },
            EngineEvent::MessagesChanged { folder, changed, removed } => {
                EngineEventView::MessagesChanged { folder, changed, removed }
            },
            EngineEvent::FlagsChanged { messages } => EngineEventView::FlagsChanged {
                messages: messages@,
            },
            EngineEvent::FolderTreeChanged { account } => EngineEventView::FolderTreeChanged {
                account,
            },
            EngineEvent::OutboxRetry { id, attempt, next_in, last_error } => {
                EngineEventView::OutboxRetry { id, attempt, next_in, last_error: last_error@ }
            },
            EngineEvent::MailSent { id, message } => EngineEventView::MailSent { id, message },
            EngineEvent::MailFailed { id, error, permanent } => EngineEventView::MailFailed {
                id,
                error: error@,
                permanent,
            },
        }
    }
}

/// What an event is seen as: its own fields.
pub proof fn law_events_keep_their_fields(event: EngineEvent)
    ensures
        match event {
            EngineEvent::AccountConnection { account, state } => event@
                == (EngineEventView::AccountConnection { account, state }),
            EngineEvent::MailArrived { account, folder, summary } => event@
                == (EngineEventView::MailArrived { account, folder, summary }),
            EngineEvent::MessagesChanged { folder, changed, removed } => event@
                == (EngineEventView::MessagesChanged { folder, changed, removed }),
            EngineEvent::FlagsChanged { messages } => event@ == (EngineEventView::FlagsChanged {
                messages: messages@,
            }),
            EngineEvent::FolderTreeChanged { account } => event@
                == (EngineEventView::FolderTreeChanged { account }),
            EngineEvent::OutboxRetry { id, attempt, next_in, last_error } => event@
                == (EngineEventView::OutboxRetry { id, attempt, next_in, last_error: last_error@ }),
            EngineEvent::MailSent { id, message } => event@ == (EngineEventView::MailSent {
                id,
                message,
            }),
            EngineEvent::MailFailed { id, error, permanent } => event@
                == (EngineEventView::MailFailed { id, error: error@, permanent }),
        },
{
}

}
