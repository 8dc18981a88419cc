//! `OutboxService`: drains due rows through SMTP with the documented backoff
//! schedule + deterministic jitter, files sent mail to the Sent folder via
//! IMAP APPEND, and emits `OutboxRetry` / `MailSent` / `MailFailed` events.
//! Offline mode defers flushing entirely.
//!
//! The service performs no I/O. It names the next action as a plain value
//! ([`OutboxAction`]); the host performs it and answers with an
//! [`OutboxAnswer`].

use vstd::prelude::*;
use vstd::string::StringExecFns;

use crate::error::{prefixed, StoreError, SyncError, SyncErrorView, SyncResult};
use crate::event::{EngineEvent, EngineEventView};
use crate::hex::{fresh_uuid, is_version_7};
use crate::model::{Address, BlobHash, Flag, MessageId, OutboxId};
use crate::store::{OutboxEnvelope, OutboxRow};
use crate::text::{decimal, decimal_text, same_text, views};

verus! {

/// Retry budget: after this many attempts the entry is failed permanently
/// (the draft is preserved in the host's store).
pub const MAX_RETRY_ATTEMPTS: u32 = 12;

/// Pause between two flushes, in milliseconds.
pub const FLUSH_INTERVAL_MS: u64 = 5_000;

/// Time limit of the APPEND that files a sent message, in milliseconds.
pub const APPEND_TIMEOUT_MS: u64 = 60_000;

/// The longest delay between two attempts, in milliseconds.
pub const LONGEST_RETRY_MS: u64 = 25_056_000;

// ---------------------------------------------------------------------------
// Backoff
// ---------------------------------------------------------------------------

/// The position in the backoff schedule for a 1-based retry count: the
/// schedule has twelve entries and repeats, and count zero is taken as one.
pub open spec fn schedule_position(retry_count: u32) -> int {
    if retry_count == 0 {
        0
    } else {
        (retry_count - 1) % 12
    }
}

/// `parts` 25ths of the schedule entry at a position, in milliseconds. The
/// entries are 30 s, 2 min, 8 min, 30 min, 2 h, and 6 h from there on.
pub open spec fn scaled_ms(position: int, parts: int) -> int {
    if position == 0 {
        30_000 * parts / 25
    } else if position == 1 {
        120_000 * parts / 25
    } else if position == 2 {
        480_000 * parts / 25
    } else if position == 3 {
        1_800_000 * parts / 25
    } else if position == 4 {
        7_200_000 * parts / 25
    } else {
        21_600_000 * parts / 25
    }
}

/// The schedule entry for a 1-based retry count, in milliseconds.
pub open spec fn base_ms(retry_count: u32) -> int {
    scaled_ms(schedule_position(retry_count), 25)
}

/// The jitter, in parts of 25: from 20 (-20%) to 29 (+16%), by the last digit
/// of the retry count.
pub open spec fn jitter(retry_count: u32) -> int {
    20 + retry_count % 10
}

/// The delay after a failed attempt, in milliseconds: the schedule entry
/// scaled by the jitter. The factor 29/25 is a binary fraction just below it,
/// which makes a difference on the two-hour entry alone: one millisecond.
pub open spec fn backoff_ms(retry_count: u32) -> u64 {
    if schedule_position(retry_count) == 4 && jitter(retry_count) == 29 {
        8_351_999
    } else {
        scaled_ms(schedule_position(retry_count), jitter(retry_count)) as u64
    }
}

/// Backoff for a 1-based retry count, in milliseconds: the documented schedule
/// scaled by deterministic jitter derived from the retry counter.
#[must_use]
pub fn backoff_for(retry_count: u32) -> (r: u64)
    ensures
        r == backoff_ms(retry_count),
        0 < r <= LONGEST_RETRY_MS,
{
    let position: u32 = if retry_count == 0 {
        0
    } else {
        (retry_count - 1) % 12
    };
    let parts: u64 = 20 + (retry_count % 10) as u64;
    if position == 0 {
        30_000 * parts / 25
    } else if position == 1 {
        120_000 * parts / 25
    } else if position == 2 {
        480_000 * parts / 25
    } else if position == 3 {
        1_800_000 * parts / 25
    } else if position == 4 {
        if parts == 29 {
            8_351_999
        } else {
            7_200_000 * parts / 25
        }
    } else {
        21_600_000 * parts / 25
    }
}

// ---------------------------------------------------------------------------
// Recipients
// ---------------------------------------------------------------------------

/// The bare addresses of a list.
pub open spec fn emails_of(list: Seq<Address>) -> Seq<Seq<char>> {
    list.map_values(|a: Address| a.email@)
}

/// `list` without the items that equal the one before them.
pub open spec fn without_repeats(list: Seq<Seq<char>>) -> Seq<Seq<char>>
    decreases list.len(),
{
    if list.len() < 2 {
        list
    } else {
        let head = without_repeats(list.drop_last());
        if list.last() == list[list.len() - 2] {
            head
        } else {
            head.push(list.last())
        }
    }
}

/// Everyone that an envelope names: To, then Cc, then Bcc.
pub open spec fn addressees(envelope: OutboxEnvelope) -> Seq<Seq<char>> {
    emails_of(envelope.to@) + emails_of(envelope.cc@) + emails_of(envelope.bcc@)
}

/// The recipients that a message is submitted to.
pub open spec fn recipients_of(envelope: OutboxEnvelope) -> Seq<Seq<char>> {
    without_repeats(addressees(envelope))
}

fn push_emails(out: &mut Vec<String>, list: &Vec<Address>)
    ensures
        views(final(out)@) == views(old(out)@) + emails_of(list@),
{
    let ghost before = views(out@);
    let mut i: usize = 0;
    assert(views(out@) =~= before + emails_of(list@.take(0)));
    while i < list.len()
        invariant
            i <= list@.len(),
            views(out@) == before + emails_of(list@.take(i as int)),
        decreases list@.len() - i,
    {
        let ghost so_far = views(out@);
        out.push(list[i].email.clone());
        i += 1;
        assert(views(out@) =~= so_far.push(list@[i - 1].email@));
        assert(emails_of(list@.take(i as int)) =~= emails_of(list@.take(i - 1)).push(
            list@[i - 1].email@,
        ));
        assert(views(out@) =~= before + emails_of(list@.take(i as int)));
    }
    assert(list@.take(list@.len() as int) =~= list@);
}

fn drop_repeats(all: &Vec<String>) -> (r: Vec<String>)
    ensures
        views(r@) == without_repeats(views(all@)),
{
    let ghost texts = views(all@);
    let mut out: Vec<String> = Vec::new();
    let mut i: usize = 0;
    assert(views(out@) =~= without_repeats(texts.take(0)));
    while i < all.len()
        invariant
            i <= all@.len(),
            texts == views(all@),
            views(out@) == without_repeats(texts.take(i as int)),
        decreases all@.len() - i,
    {
        let repeated = i > 0 && same_text(all[i].as_str(), all[i - 1].as_str());
        let ghost before = views(out@);
        if !repeated {
            out.push(all[i].clone());
            assert(views(out@) =~= before.push(texts[i as int]));
        }
        i += 1;
        proof {
            let head = texts.take(i as int);
            assert(head.drop_last() =~= texts.take(i - 1));
            assert(head.last() == texts[i - 1]);
            if i == 1 {
                assert(texts.take(0) =~= Seq::empty());
                assert(views(out@) =~= head);
            } else {
                assert(head[head.len() - 2] == texts[i - 2]);
            }
        }
    }
    assert(texts.take(texts.len() as int) =~= texts);
    out
}

/// The recipients that a message is submitted to: To, Cc and Bcc in order,
/// an address that equals the one before it left out.
#[must_use]
pub fn recipients(envelope: &OutboxEnvelope) -> (r: Vec<String>)
    ensures
        views(r@) == recipients_of(*envelope),
{
    let mut all: Vec<String> = Vec::new();
    assert(views(all@) =~= Seq::empty());
    push_emails(&mut all, &envelope.to);
    push_emails(&mut all, &envelope.cc);
    push_emails(&mut all, &envelope.bcc);
    assert(views(all@) =~= addressees(*envelope));
    drop_repeats(&all)
}

// ---------------------------------------------------------------------------
// Outcome of a send
// ---------------------------------------------------------------------------

/// How an attempt to send ended.
#[derive(Debug)]
pub enum SendOutcome {
    /// The server took the message.
    Sent,
    /// Worth another attempt; why it failed.
    Transient(String),
    /// Not worth another attempt; why it failed.
    Permanent(String),
}

/// The contents of a [`SendOutcome`].
#[verifier::ext_equal]
pub enum SendOutcomeView {
    Sent,
    Transient(Seq<char>),
    Permanent(Seq<char>),
}

impl View for SendOutcome {
    type V = SendOutcomeView;

    open spec fn view(&self) -> SendOutcomeView {
        match self {
            SendOutcome::Sent => SendOutcomeView::Sent,
            SendOutcome::Transient(detail) => SendOutcomeView::Transient(detail@),
            SendOutcome::Permanent(detail) => SendOutcomeView::Permanent(detail@),
        }
    }
}

/// What the result of a submission means: a transient SMTP status and a
/// transport or TLS failure are worth another attempt, any other error is
/// not.
pub open spec fn submission_outcome(result: Result<(), SyncErrorView>) -> SendOutcomeView {
    match result {
        Ok(_) => SendOutcomeView::Sent,
        Err(SyncErrorView::SmtpTransient { code }) => SendOutcomeView::Transient(
            "smtp "@ + decimal(code as nat),
        ),
        Err(SyncErrorView::Transport { detail }) => SendOutcomeView::Transient(detail),
        Err(SyncErrorView::Tls { detail }) => SendOutcomeView::Transient(detail),
        Err(e) => SendOutcomeView::Permanent(e.text()),
    }
}

/// The contents of a submission's result.
pub open spec fn result_view(result: Result<(), SyncError>) -> Result<(), SyncErrorView> {
    match result {
        Ok(_) => Ok(()),
        Err(e) => Err(e@),
    }
}

/// What the result of a submission means.
#[must_use]
pub fn classify(result: Result<(), SyncError>) -> (r: SendOutcome)
    ensures
        r@ == submission_outcome(result_view(result)),
{
    match result {
        Ok(()) => SendOutcome::Sent,
        Err(SyncError::SmtpTransient { code }) => SendOutcome::Transient(
            prefixed("smtp ", decimal_text(code as u64).as_str()),
        ),
        Err(SyncError::Transport { detail }) => SendOutcome::Transient(detail),
        Err(SyncError::Tls { detail }) => SendOutcome::Transient(detail),
        Err(e) => SendOutcome::Permanent(e.to_string()),
    }
}

/// What it means that the raw message cannot be read.
pub open spec fn blob_outcome(error: crate::error::StoreErrorView) -> SendOutcomeView {
    SendOutcomeView::Permanent("raw blob unavailable: "@ + error.text())
}

// ---------------------------------------------------------------------------
// Settling an entry
// ---------------------------------------------------------------------------

/// A change to an outbox entry.
#[derive(Debug)]
pub enum OutboxMark {
    /// The entry is sent.
    Sent {
        /// Entry.
        id: OutboxId,
        /// When (unix ms).
        sent_at: i64,
    },
    /// The entry is to be tried again.
    Retry {
        /// Entry.
        id: OutboxId,
        /// Attempts made.
        retry_count: u32,
        /// When to try again (unix ms).
        next_attempt_at: i64,
        /// Why the last attempt failed.
        last_error: String,
    },
}

/// What settles an attempt: a change to the entry, then events, all
/// best-effort and in order.
#[derive(Debug)]
pub struct Settlement {
    /// The change to the entry, if any.
    pub mark: Option<OutboxMark>,
    /// The events to send.
    pub events: Vec<EngineEvent>,
}

/// The contents of an [`OutboxMark`].
#[verifier::ext_equal]
pub enum OutboxMarkView {
    Sent { id: OutboxId, sent_at: i64 },
    Retry { id: OutboxId, retry_count: u32, next_attempt_at: i64, last_error: Seq<char> },
}

/// The contents of a [`Settlement`].
#[verifier::ext_equal]
pub struct SettlementView {
    pub mark: Option<OutboxMarkView>,
    pub events: Seq<EngineEventView>,
}

impl View for OutboxMark {
    type V = OutboxMarkView;

    open spec fn view(&self) -> OutboxMarkView {
        match *self {
            OutboxMark::Sent { id, sent_at } => OutboxMarkView::Sent { id, sent_at },
            OutboxMark::Retry { id, retry_count, next_attempt_at, last_error } => {
                OutboxMarkView::Retry { id, retry_count, next_attempt_at, last_error: last_error@ }
            },
        }
    }
}

/// The contents of a list of events.
pub open spec fn event_views(events: Seq<EngineEvent>) -> Seq<EngineEventView> {
    events.map_values(|e: EngineEvent| e@)
}

impl View for Settlement {
    type V = SettlementView;

    open spec fn view(&self) -> SettlementView {
        SettlementView {
            mark: match self.mark {
                Some(mark) => Some(mark@),
                None => None,
            },
            events: event_views(self.events@),
        }
    }
}

/// The event that tells of a failure for good.
pub open spec fn failure_event(id: OutboxId, error: SyncErrorView) -> EngineEventView {
    EngineEventView::MailFailed { id, error, permanent: true }
}

/// What settles an attempt on an entry that was tried `retry_count` times
/// before. `marker` is the message id under which a sent message is told of.
pub open spec fn settlement(
    id: OutboxId,
    retry_count: u32,
    outcome: SendOutcomeView,
    now: i64,
    marker: MessageId,
) -> SettlementView {
    match outcome {
        SendOutcomeView::Sent => SettlementView {
            mark: Some(OutboxMarkView::Sent { id, sent_at: now }),
            events: seq![EngineEventView::MailSent { id, message: marker }],
        },
        SendOutcomeView::Transient(detail) => {
            let attempt = (retry_count + 1) as u32;
            if attempt >= MAX_RETRY_ATTEMPTS {
                SettlementView {
                    mark: None,
                    events: seq![
                        failure_event(id, SyncErrorView::RetryExhausted { attempts: attempt }),
                    ],
                }
            } else {
                SettlementView {
                    mark: Some(
                        OutboxMarkView::Retry {
                            id,
                            retry_count: attempt,
                            next_attempt_at: (now + backoff_ms(attempt)) as i64,
                            last_error: detail,
                        },
                    ),
                    events: seq![
                        EngineEventView::OutboxRetry {
                            id,
                            attempt,
                            next_in: backoff_ms(attempt),
                            last_error: detail,
                        },
                    ],
                }
            }
        },
        SendOutcomeView::Permanent(detail) => SettlementView {
            mark: None,
            events: seq![failure_event(id, SyncErrorView::MessageRejected { detail })],
        },
    }
}

/// Whether an attempt that ends in `outcome`, on an entry that was tried
/// `retry_count` times before, is the last one and failed.
pub open spec fn fails_for_good(retry_count: u32, outcome: SendOutcomeView) -> bool {
    match outcome {
        SendOutcomeView::Sent => false,
        SendOutcomeView::Transient(_) => retry_count + 1 >= MAX_RETRY_ATTEMPTS,
        SendOutcomeView::Permanent(_) => true,
    }
}

/// Whether a failed attempt can be counted and, unless the budget is spent,
/// the next one timed without leaving the range of the counter and of the
/// clock.
pub open spec fn can_settle(retry_count: u32, now: i64) -> bool {
    &&& retry_count < u32::MAX
    &&& retry_count + 1 < MAX_RETRY_ATTEMPTS ==> now + backoff_ms((retry_count + 1) as u32)
        <= i64::MAX
}

/// Settles an attempt on an entry that was tried `retry_count` times before.
#[must_use]
pub fn settle(
    id: OutboxId,
    retry_count: u32,
    outcome: SendOutcome,
    now: i64,
    marker: MessageId,
) -> (r: Settlement)
    requires
        outcome is Transient ==> can_settle(retry_count, now),
    ensures
        r@ == settlement(id, retry_count, outcome@, now, marker),
{
    let ghost wanted = settlement(id, retry_count, outcome@, now, marker);
    let mut events: Vec<EngineEvent> = Vec::new();
    let mark = match outcome {
        SendOutcome::Sent => {
            events.push(EngineEvent::MailSent { id, message: marker });
            Some(OutboxMark::Sent { id, sent_at: now })
        },
        SendOutcome::Transient(detail) => {
            let attempt: u32 = retry_count + 1;
            if attempt >= MAX_RETRY_ATTEMPTS {
                events.push(
                    EngineEvent::MailFailed {
                        id,
                        error: SyncError::RetryExhausted { attempts: attempt },
                        permanent: true,
                    },
                );
                None
            } else {
                let next_in = backoff_for(attempt);
                let next_attempt_at: i64 = now + next_in as i64;
                events.push(
                    EngineEvent::OutboxRetry { id, attempt, next_in, last_error: detail.clone() },
                );
                Some(
                    OutboxMark::Retry {
                        id,
                        retry_count: attempt,
                        next_attempt_at,
                        last_error: detail,
                    },
                )
            }
        },
        SendOutcome::Permanent(detail) => {
            events.push(
                EngineEvent::MailFailed {
                    id,
                    error: SyncError::MessageRejected { detail },
                    permanent: true,
                },
            );
            None
        },
    };
    assert(event_views(events@) =~= wanted.events);
    Settlement { mark, events }
}

/// The outbox row is the durable record; `MailSent` carries the outbox id
/// mapped onto a fresh message id for host-side lists.
#[must_use]
pub fn sent_marker() -> (r: MessageId)
    ensures
        is_version_7(r.spec_uuid()),
{
    MessageId::from_uuid(fresh_uuid())
}

// ---------------------------------------------------------------------------
// Filing
// ---------------------------------------------------------------------------

/// An IMAP APPEND: which bytes go to which mailbox, with which flags.
#[derive(Debug)]
pub struct AppendCommand {
    /// Mailbox name.
    pub mailbox: String,
    /// Flags of the filed message.
    pub flags: Vec<Flag>,
    /// The message.
    pub message: Vec<u8>,
    /// Time limit, in milliseconds.
    pub timeout_ms: u64,
}

/// The position of the first zero byte; the length where there is none.
pub open spec fn first_nul(bytes: Seq<u8>) -> nat
    decreases bytes.len(),
{
    if bytes.len() == 0 || bytes[0] == 0 {
        0
    } else {
        1 + first_nul(bytes.skip(1))
    }
}

/// `imap_types::core::Literal::try_from`: takes every byte string that holds
/// no zero byte, and its contents are that byte string. The error names the
/// first zero byte; the text is its debug form.
#[verifier::external_body]
fn literal(bytes: Vec<u8>) -> (r: Result<Vec<u8>, String>)
    ensures
        match r {
            Ok(data) => first_nul(bytes@) == bytes@.len() && data@ == bytes@,
            Err(what) => first_nul(bytes@) < bytes@.len() && what@
                == "ValidationError { kind: InvalidByteAt { byte: 0, at: "@ + decimal(
                first_nul(bytes@),
            ) + " } }"@,
        },
{
    imap_next::imap_types::core::Literal::try_from(bytes)
        .map(|literal| literal.into_inner().into_owned())
        .map_err(|e| format!("{e:?}"))
}

/// The APPEND that files a sent message in the account's Sent folder.
///
/// # Errors
/// [`SyncError::Protocol`] where the message holds a zero byte.
pub fn append_command(raw: Vec<u8>) -> (r: SyncResult<AppendCommand>)
    ensures
        r is Ok <==> first_nul(raw@) == raw@.len(),
        r matches Ok(command) ==> {
            &&& command.mailbox@ == "Sent"@
            &&& command.flags@.len() == 0
            &&& command.message@ == raw@
            &&& command.timeout_ms == APPEND_TIMEOUT_MS
        },
        r matches Err(e) ==> e@ == SyncErrorView::Protocol(
            "append literal: "@ + ("ValidationError { kind: InvalidByteAt { byte: 0, at: "@
                + decimal(first_nul(raw@)) + " } }"@),
        ),
{
    match literal(raw) {
        Ok(message) => Ok(
            AppendCommand {
                mailbox: "Sent".to_string(),
                flags: Vec::new(),
                message,
                timeout_ms: APPEND_TIMEOUT_MS,
            },
        ),
        Err(what) => Err(SyncError::Protocol(prefixed("append literal: ", what.as_str()))),
    }
}

// ---------------------------------------------------------------------------
// Scheduling
// ---------------------------------------------------------------------------

/// What the flush loop does when it wakes.
#[derive(Clone, Copy, Debug, PartialEq, Eq, Structural)]
pub enum FlushDecision {
    /// Flush, then sleep again.
    Flush,
    /// Sleep again.
    Skip,
    /// Flush one last time, then stop.
    FlushAndStop,
    /// Stop without a flush.
    Stop,
}

/// What the flush loop does when it wakes: a tick flushes and cancellation
/// brings one final flush, each unless the host is offline.
#[must_use]
pub fn flush_decision(cancelled: bool, online: bool) -> (r: FlushDecision)
    ensures
        r == match (cancelled, online) {
            (false, true) => FlushDecision::Flush,
            (false, false) => FlushDecision::Skip,
            (true, true) => FlushDecision::FlushAndStop,
            (true, false) => FlushDecision::Stop,
        },
{
    if cancelled {
        if online {
            FlushDecision::FlushAndStop
        } else {
            FlushDecision::Stop
        }
    } else if online {
        FlushDecision::Flush
    } else {
        FlushDecision::Skip
    }
}

// ---------------------------------------------------------------------------
// Service
// ---------------------------------------------------------------------------

/// What the service waits for: the answer to the action it named last.
#[derive(Clone, Copy, Debug, PartialEq, Eq, Structural)]
pub enum OutboxPhase {
    /// Due entries listed.
    Listing,
    /// Raw message read.
    Reading,
    /// Message submitted.
    Submitting,
    /// Sent message filed.
    Filing,
    /// Attempt settled.
    Settling,
    /// Nothing: no flush is under way.
    Idle,
}

/// An answer from the host.
#[derive(Debug)]
pub enum OutboxAnswer {
    /// The due entries.
    Due(Result<Vec<OutboxRow>, StoreError>),
    /// The raw message.
    Blob(Result<Vec<u8>, StoreError>),
    /// How the submission ended, and the time (unix ms).
    Submitted {
        /// The result.
        result: Result<(), SyncError>,
        /// The time.
        now: i64,
    },
    /// Filing was tried, whatever came of it; and the time (unix ms).
    Filed {
        /// The time.
        now: i64,
    },
    /// The settlement was performed, whatever came of it.
    Settled,
}

/// What the host is to do next.
#[derive(Debug)]
pub enum OutboxAction {
    /// List the due entries.
    ListDue,
    /// Read the raw message.
    ReadBlob(BlobHash),
    /// Submit the raw message under the envelope given.
    Submit {
        /// Sender.
        from: String,
        /// Recipients.
        recipients: Vec<String>,
        /// Raw message.
        raw: Vec<u8>,
    },
    /// File the raw message in the Sent folder, best-effort.
    FileSent {
        /// Raw message.
        raw: Vec<u8>,
    },
    /// Change the entry and send the events.
    Settle(Settlement),
    /// Nothing: the flush is over.
    Finish(SyncResult<()>),
}

/// The contents of an [`OutboxAction`].
#[verifier::ext_equal]
pub enum OutboxActionView {
    ListDue,
    ReadBlob(Seq<char>),
    Submit { from: Seq<char>, recipients: Seq<Seq<char>>, raw: Seq<u8> },
    FileSent { raw: Seq<u8> },
    Settle(SettlementView),
    Finish(Result<(), SyncErrorView>),
}

impl View for OutboxAction {
    type V = OutboxActionView;

    open spec fn view(&self) -> OutboxActionView {
        match *self {
            OutboxAction::ListDue => OutboxActionView::ListDue,
            OutboxAction::ReadBlob(hash) => OutboxActionView::ReadBlob(hash@),
            OutboxAction::Submit { from, recipients, raw } => OutboxActionView::Submit {
                from: from@,
                recipients: views(recipients@),
                raw: raw@,
            },
            OutboxAction::FileSent { raw } => OutboxActionView::FileSent { raw: raw@ },
            OutboxAction::Settle(settlement) => OutboxActionView::Settle(settlement@),
            OutboxAction::Finish(result) => OutboxActionView::Finish(result_view(result)),
        }
    }
}

/// The state of the service.
#[verifier::ext_equal]
pub struct OutboxState {
    /// What the service waits for.
    pub phase: OutboxPhase,
    /// The due entries.
    pub rows: Seq<OutboxRow>,
    /// Position in `rows`.
    pub next: nat,
    /// The raw message in hand.
    pub raw: Seq<u8>,
    /// The entries that failed for good, in this flush or an earlier one.
    pub failed: Seq<OutboxId>,
}

impl OutboxState {
    /// The state of a fresh service.
    pub open spec fn fresh() -> OutboxState {
        OutboxState {
            phase: OutboxPhase::Idle,
            rows: Seq::empty(),
            next: 0,
            raw: Seq::empty(),
            failed: Seq::empty(),
        }
    }

    /// What holds in every state: while an entry is in hand, the position
    /// points at it, and while it is being tried, it has not failed for good.
    pub open spec fn well_formed(self) -> bool {
        &&& self.phase != OutboxPhase::Listing && self.phase != OutboxPhase::Idle ==> self.next
            < self.rows.len()
        &&& self.trying() ==> !self.failed.contains(self.row().id)
    }

    /// Whether the entry in hand is being tried.
    pub open spec fn trying(self) -> bool {
        self.phase == OutboxPhase::Reading || self.phase == OutboxPhase::Submitting || self.phase
            == OutboxPhase::Filing
    }

    /// The entry in hand.
    pub open spec fn row(self) -> OutboxRow {
        self.rows[self.next as int]
    }
}

/// A state and the action that it waits for.
pub type OutboxTransition = (OutboxState, OutboxActionView);

/// Whether `answer` is one to what a service in state `s` waits for. A failed
/// attempt must leave room to count it and to time the next one.
pub open spec fn outbox_answers(s: OutboxState, answer: OutboxAnswer) -> bool {
    match s.phase {
        OutboxPhase::Listing => answer is Due,
        OutboxPhase::Reading => answer is Blob,
        OutboxPhase::Submitting => answer matches OutboxAnswer::Submitted { result, now } && (
        submission_outcome(result_view(result)) is Transient ==> can_settle(
            s.row().retry_count,
            now,
        )),
        OutboxPhase::Filing => answer is Filed,
        OutboxPhase::Settling => answer is Settled,
        OutboxPhase::Idle => false,
    }
}

/// A flush begins; one that is under way is abandoned.
pub open spec fn flush_begun(s: OutboxState) -> OutboxTransition {
    (OutboxState { phase: OutboxPhase::Listing, ..s }, OutboxActionView::ListDue)
}

/// The flush is over.
pub open spec fn flush_over(s: OutboxState, result: Result<(), SyncErrorView>) -> OutboxTransition {
    (OutboxState { phase: OutboxPhase::Idle, ..s }, OutboxActionView::Finish(result))
}

/// The position of the first entry, from `from` on, that has not failed for
/// good; behind the last entry where there is none.
pub open spec fn open_entry(rows: Seq<OutboxRow>, failed: Seq<OutboxId>, from: nat) -> nat
    decreases rows.len() - from,
{
    if from < rows.len() && failed.contains(rows[from as int].id) {
        open_entry(rows, failed, from + 1)
    } else {
        from
    }
}

/// Takes up the first entry, from the position given on, that has not failed
/// for good, or ends where there is none.
pub open spec fn entry_taken(s: OutboxState, from: nat) -> OutboxTransition {
    let next = open_entry(s.rows, s.failed, from);
    if next < s.rows.len() {
        (
            OutboxState { phase: OutboxPhase::Reading, next, ..s },
            OutboxActionView::ReadBlob(s.rows[next as int].raw_blob@),
        )
    } else {
        flush_over(s, Ok(()))
    }
}

/// Settles the attempt on the entry in hand; one that failed for good is
/// remembered.
pub open spec fn attempt_settled(
    s: OutboxState,
    outcome: SendOutcomeView,
    now: i64,
    marker: MessageId,
) -> OutboxTransition {
    (
        OutboxState {
            phase: OutboxPhase::Settling,
            failed: if fails_for_good(s.row().retry_count, outcome) {
                s.failed.push(s.row().id)
            } else {
                s.failed
            },
            ..s
        },
        OutboxActionView::Settle(
            settlement(s.row().id, s.row().retry_count, outcome, now, marker),
        ),
    )
}

/// What the service does when its last action is answered by `answer`. `marker`
/// is the message id under which a sent message is told of.
pub open spec fn outbox_transition(
    s: OutboxState,
    answer: OutboxAnswer,
    marker: MessageId,
) -> OutboxTransition {
    match answer {
        OutboxAnswer::Due(Ok(rows)) => entry_taken(OutboxState { rows: rows@, ..s }, 0),
        OutboxAnswer::Due(Err(e)) => flush_over(s, Err(SyncErrorView::Store(e@))),
        OutboxAnswer::Blob(Ok(raw)) => (
            OutboxState { phase: OutboxPhase::Submitting, raw: raw@, ..s },
            OutboxActionView::Submit {
                from: s.row().envelope.from.email@,
                recipients: recipients_of(s.row().envelope),
                raw: raw@,
            },
        ),
        OutboxAnswer::Blob(Err(e)) => attempt_settled(s, blob_outcome(e@), 0, marker),
        OutboxAnswer::Submitted { result: Ok(_), .. } => (
            OutboxState { phase: OutboxPhase::Filing, ..s },
            OutboxActionView::FileSent { raw: s.raw },
        ),
        OutboxAnswer::Submitted { result: Err(e), now } => attempt_settled(
            s,
            submission_outcome(Err(e@)),
            now,
            marker,
        ),
        OutboxAnswer::Filed { now } => attempt_settled(s, SendOutcomeView::Sent, now, marker),
        OutboxAnswer::Settled => entry_taken(s, s.next + 1),
    }
}

/// The outbox flush service: each flush drains all due entries once, but for
/// those that failed for good before.
pub struct OutboxService {
    phase: OutboxPhase,
    rows: Vec<OutboxRow>,
    next: usize,
    raw: Vec<u8>,
    failed: Vec<OutboxId>,
}

impl View for OutboxService {
    type V = OutboxState;

    closed spec fn view(&self) -> OutboxState {
        OutboxState {
            phase: self.phase,
            rows: self.rows@,
            next: self.next as nat,
            raw: self.raw@,
            failed: self.failed@,
        }
    }
}

fn copy_bytes(bytes: &Vec<u8>) -> (r: Vec<u8>)
    ensures
        r@ == bytes@,
{
    let r = bytes.clone();
    assert(r@ =~= bytes@);
    r
}

impl OutboxService {
    /// Creates the service. No flush is under way.
    #[must_use]
    pub fn new() -> (r: Self)
        ensures
            r@ == OutboxState::fresh(),
            r@.well_formed(),
    {
        let service = Self {
            phase: OutboxPhase::Idle,
            rows: Vec::new(),
            next: 0,
            raw: Vec::new(),
            failed: Vec::new(),
        };
        assert(service@ =~= OutboxState::fresh());
        service
    }

    /// Begins a flush, which drains all due entries once, and names its first
    /// action. A flush that is under way is abandoned; what failed for good
    /// stays remembered.
    pub fn flush_once(&mut self) -> (r: OutboxAction)
        ensures
            final(self)@ == flush_begun(old(self)@).0,
            final(self)@.well_formed(),
            r@ == flush_begun(old(self)@).1,
    {
        self.phase = OutboxPhase::Listing;
        OutboxAction::ListDue
    }

    /// Backoff for a 1-based retry count, in milliseconds, with deterministic
    /// jitter (stable across runs).
    #[must_use]
    pub fn backoff_for(retry_count: u32) -> (r: u64)
        ensures
            r == backoff_ms(retry_count),
            0 < r <= LONGEST_RETRY_MS,
    {
        backoff_for(retry_count)
    }

    /// What the service waits for.
    #[must_use]
    pub fn phase(&self) -> (r: OutboxPhase)
        ensures
            r == self@.phase,
    {
        self.phase
    }

    /// Whether `answer` is one to what the service waits for.
    #[must_use]
    pub fn accepts(&self, answer: &OutboxAnswer) -> (r: bool)
        requires
            self@.well_formed(),
        ensures
            r == outbox_answers(self@, *answer),
    {
        match (self.phase, answer) {
            (OutboxPhase::Listing, OutboxAnswer::Due(_)) => true,
            (OutboxPhase::Reading, OutboxAnswer::Blob(_)) => true,
            (OutboxPhase::Submitting, OutboxAnswer::Submitted { result, now }) => {
                let again = match result {
                    Err(SyncError::SmtpTransient { .. }) => true,
                    Err(SyncError::Transport { .. }) => true,
                    Err(SyncError::Tls { .. }) => true,
                    _ => false,
                };
                let retry_count: u32 = self.rows[self.next].retry_count;
                !again || (retry_count < u32::MAX && (retry_count + 1 >= MAX_RETRY_ATTEMPTS || *now
                    <= i64::MAX - backoff_for(retry_count + 1) as i64))
            },
            (OutboxPhase::Filing, OutboxAnswer::Filed { .. }) => true,
            (OutboxPhase::Settling, OutboxAnswer::Settled) => true,
            _ => false,
        }
    }

    fn finish(&mut self, result: SyncResult<()>) -> (r: OutboxAction)
        ensures
            final(self)@ == flush_over(old(self)@, result_view(result)).0,
            r@ == flush_over(old(self)@, result_view(result)).1,
    {
        self.phase = OutboxPhase::Idle;
        OutboxAction::Finish(result)
    }

    fn has_failed(&self, id: OutboxId) -> (r: bool)
        ensures
            r == self@.failed.contains(id),
    {
        let mut i: usize = 0;
        while i < self.failed.len()
            invariant
                i <= self.failed@.len(),
                forall|j: int| 0 <= j < i ==> self.failed@[j] != id,
            decreases self.failed@.len() - i,
        {
            if self.failed[i] == id {
                assert(self@.failed[i as int] == id);
                return true;
            }
            i += 1;
        }
        false
    }

    fn take_entry(&mut self, from: usize) -> (r: OutboxAction)
        ensures
            final(self)@ == entry_taken(old(self)@, from as nat).0,
            final(self)@.well_formed(),
            r@ == entry_taken(old(self)@, from as nat).1,
    {
        let mut next: usize = from;
        while next < self.rows.len() && self.has_failed(self.rows[next].id)
            invariant
                open_entry(self@.rows, self@.failed, from as nat) == open_entry(
                    self@.rows,
                    self@.failed,
                    next as nat,
                ),
            decreases self.rows@.len() - next,
        {
            next += 1;
        }
        if next < self.rows.len() {
            self.phase = OutboxPhase::Reading;
            self.next = next;
            OutboxAction::ReadBlob(self.rows[next].raw_blob.clone())
        } else {
            self.finish(Ok(()))
        }
    }

    fn settle_attempt(&mut self, outcome: SendOutcome, now: i64, marker: MessageId) -> (r:
        OutboxAction)
        requires
            old(self)@.next < old(self)@.rows.len(),
            outcome is Transient ==> can_settle(old(self)@.row().retry_count, now),
        ensures
            final(self)@ == attempt_settled(old(self)@, outcome@, now, marker).0,
            final(self)@.well_formed(),
            r@ == attempt_settled(old(self)@, outcome@, now, marker).1,
    {
        self.phase = OutboxPhase::Settling;
        let id = self.rows[self.next].id;
        let retry_count: u32 = self.rows[self.next].retry_count;
        let for_good = match &outcome {
            SendOutcome::Sent => false,
            SendOutcome::Transient(_) => retry_count + 1 >= MAX_RETRY_ATTEMPTS,
            SendOutcome::Permanent(_) => true,
        };
        if for_good {
            self.failed.push(id);
        }
        OutboxAction::Settle(settle(id, retry_count, outcome, now, marker))
    }

    /// Takes the answer to the last action and names the next action; a sent
    /// message is told of under the message id given.
    pub fn step_with(&mut self, answer: OutboxAnswer, marker: MessageId) -> (r: OutboxAction)
        requires
            old(self)@.well_formed(),
            outbox_answers(old(self)@, answer),
        ensures
            final(self)@ == outbox_transition(old(self)@, answer, marker).0,
            final(self)@.well_formed(),
            r@ == outbox_transition(old(self)@, answer, marker).1,
    {
        match answer {
            OutboxAnswer::Due(Ok(rows)) => {
                self.rows = rows;
                self.take_entry(0)
            },
            OutboxAnswer::Due(Err(e)) => self.finish(Err(SyncError::from(e))),
            OutboxAnswer::Blob(Ok(raw)) => {
                self.phase = OutboxPhase::Submitting;
                let envelope = &self.rows[self.next].envelope;
                let from = envelope.from.email.clone();
                let recipients = recipients(envelope);
                let copy = copy_bytes(&raw);
                self.raw = raw;
                OutboxAction::Submit { from, recipients, raw: copy }
            },
            OutboxAnswer::Blob(Err(e)) => {
                let detail = prefixed("raw blob unavailable: ", e.to_string().as_str());
                self.settle_attempt(SendOutcome::Permanent(detail), 0, marker)
            },
            OutboxAnswer::Submitted { result, now } => match classify(result) {
                SendOutcome::Sent => {
                    self.phase = OutboxPhase::Filing;
                    OutboxAction::FileSent { raw: copy_bytes(&self.raw) }
                },
                outcome => self.settle_attempt(outcome, now, marker),
            },
            OutboxAnswer::Filed { now } => self.settle_attempt(SendOutcome::Sent, now, marker),
            OutboxAnswer::Settled => {
                let len = self.rows.len();
                assert(self.next < len);
                self.take_entry(self.next + 1)
            },
        }
    }

    /// Takes the answer to the last action and names the next action; a sent
    /// message is told of under a fresh message id.
    pub fn step(&mut self, answer: OutboxAnswer) -> (r: OutboxAction)
        requires
            old(self)@.well_formed(),
            outbox_answers(old(self)@, answer),
        ensures
            exists|marker: MessageId|
                (answer is Filed ==> is_version_7(marker.spec_uuid())) && (final(self)@, r@)
                    == #[trigger] outbox_transition(old(self)@, answer, marker),
            final(self)@.well_formed(),
    {
        let ghost before = self@;
        if let OutboxAnswer::Filed { now } = answer {
            let marker = sent_marker();
            let action = self.step_with(OutboxAnswer::Filed { now }, marker);
            assert((self@, action@) == outbox_transition(before, answer, marker));
            return action;
        }
        // No other answer leads to an event that carries a message id.
        let unused = MessageId::from_uuid(0);
        let action = self.step_with(answer, unused);
        assert((self@, action@) == outbox_transition(before, answer, unused));
        action
    }
}

// ---------------------------------------------------------------------------
// Laws
// ---------------------------------------------------------------------------

/// The backoff stays within 20% of the schedule entry, and is never zero.
pub proof fn law_backoff_stays_near_the_schedule(retry_count: u32)
    ensures
        4 * base_ms(retry_count) <= 5 * backoff_ms(retry_count) <= 6 * base_ms(retry_count),
        0 < backoff_ms(retry_count) <= LONGEST_RETRY_MS,
{
}

/// The backoff repeats every 60 attempts: twelve schedule entries against ten
/// jitter steps.
pub proof fn law_backoff_repeats(retry_count: u32)
    requires
        1 <= retry_count <= u32::MAX - 60,
    ensures
        backoff_ms((retry_count + 60) as u32) == backoff_ms(retry_count),
{
    let later = (retry_count + 60) as u32;
    assert((later - 1) % 12 == (retry_count - 1) % 12);
    assert(later % 10 == retry_count % 10);
}

/// A message goes to exactly those whom its envelope names, and never to the
/// same address twice in a row.
pub proof fn law_recipients_are_the_addressees(envelope: OutboxEnvelope)
    ensures
        forall|email: Seq<char>| #[trigger]
            recipients_of(envelope).contains(email) <==> addressees(envelope).contains(email),
        forall|i: int|
            0 < i < recipients_of(envelope).len() ==> #[trigger] recipients_of(envelope)[i]
                != recipients_of(envelope)[i - 1],
{
    lemma_without_repeats(addressees(envelope));
}

proof fn lemma_without_repeats(list: Seq<Seq<char>>)
    ensures
        forall|x: Seq<char>| #[trigger] without_repeats(list).contains(x) <==> list.contains(x),
        forall|i: int|
            0 < i < without_repeats(list).len() ==> #[trigger] without_repeats(list)[i]
                != without_repeats(list)[i - 1],
        list.len() > 0 ==> without_repeats(list).len() > 0 && without_repeats(list).last()
            == list.last(),
    decreases list.len(),
{
    if list.len() >= 2 {
        let short = list.drop_last();
        let head = without_repeats(short);
        let all = without_repeats(list);
        lemma_without_repeats(short);
        assert(short.last() == list[list.len() - 2]);
        assert forall|x: Seq<char>| #[trigger] all.contains(x) <==> list.contains(x) by {
            if all.contains(x) {
                let i = choose|i: int| 0 <= i < all.len() && all[i] == x;
                if i < head.len() {
                    assert(head[i] == x);
                    assert(head.contains(x));
                    let j = choose|j: int| 0 <= j < short.len() && short[j] == x;
                    assert(list[j] == x);
                } else {
                    assert(list[list.len() - 1] == x);
                }
            }
            if list.contains(x) {
                let j = choose|j: int| 0 <= j < list.len() && list[j] == x;
                if j < short.len() {
                    assert(short[j] == x);
                    assert(short.contains(x));
                    assert(head.contains(x));
                    let i = choose|i: int| 0 <= i < head.len() && head[i] == x;
                    assert(all[i] == x);
                } else {
                    assert(all.last() == x);
                    assert(all[all.len() - 1] == x);
                }
            }
        }
    }
}

/// While the retry budget lasts, a transient failure is rescheduled under the
/// next attempt number and told of with the same delay, and with nothing
/// else. Once the budget is spent, it is told of as a failure for good, and
/// nothing is rescheduled.
pub proof fn law_retries_end_with_the_budget(
    id: OutboxId,
    retry_count: u32,
    detail: Seq<char>,
    now: i64,
    marker: MessageId,
)
    requires
        can_settle(retry_count, now),
    ensures
        ({
            let settled = settlement(
                id,
                retry_count,
                SendOutcomeView::Transient(detail),
                now,
                marker,
            );
            let attempt = (retry_count + 1) as u32;
            &&& attempt < MAX_RETRY_ATTEMPTS ==> {
                &&& settled.mark == Some(
                    OutboxMarkView::Retry {
                        id,
                        retry_count: attempt,
                        next_attempt_at: (now + backoff_ms(attempt)) as i64,
                        last_error: detail,
                    },
                )
                &&& now < now + backoff_ms(attempt) <= i64::MAX
                &&& settled.events == seq![
                    EngineEventView::OutboxRetry {
                        id,
                        attempt,
                        next_in: backoff_ms(attempt),
                        last_error: detail,
                    },
                ]
            }
            &&& attempt >= MAX_RETRY_ATTEMPTS ==> settled == (SettlementView {
                mark: None,
                events: seq![
                    failure_event(id, SyncErrorView::RetryExhausted { attempts: attempt }),
                ],
            })
        }),
{
    law_backoff_stays_near_the_schedule((retry_count + 1) as u32);
}

proof fn lemma_open_entry(rows: Seq<OutboxRow>, failed: Seq<OutboxId>, from: nat)
    requires
        from <= rows.len(),
    ensures
        ({
            let at = open_entry(rows, failed, from);
            &&& from <= at <= rows.len()
            &&& at < rows.len() ==> !failed.contains(rows[at as int].id)
            &&& forall|i: int| from <= i < at ==> failed.contains((#[trigger] rows[i]).id)
        }),
    decreases rows.len() - from,
{
    if from < rows.len() && failed.contains(rows[from as int].id) {
        lemma_open_entry(rows, failed, from + 1);
    }
}

/// Whether every entry from `from` up to, but not with, `to` failed for good.
pub open spec fn all_failed(s: OutboxState, from: nat, to: nat) -> bool {
    forall|i: int| from <= i < to ==> s.failed.contains((#[trigger] s.rows[i]).id)
}

/// A flush settles every due entry that has not failed for good once, in
/// order: while it runs, the entries stay the same, each settled attempt
/// moves the position to the next such entry, and the flush ends where no
/// such entry is left.
pub proof fn law_flush_settles_each_entry_once(
    s: OutboxState,
    answer: OutboxAnswer,
    marker: MessageId,
)
    requires
        s.well_formed(),
        outbox_answers(s, answer),
    ensures
        ({
            let t = outbox_transition(s, answer, marker);
            &&& t.0.well_formed()
            &&& s.phase != OutboxPhase::Listing ==> t.0.rows == s.rows
            &&& answer matches OutboxAnswer::Due(Ok(rows)) ==> {
                &&& t.0.rows == rows@
                &&& t.0.phase == OutboxPhase::Reading ==> all_failed(t.0, 0, t.0.next)
                &&& t.0.phase != OutboxPhase::Reading ==> t.1 == OutboxActionView::Finish(Ok(()))
                    && all_failed(t.0, 0, rows@.len())
            }
            &&& s.phase == OutboxPhase::Settling ==> {
                &&& t.0.phase == OutboxPhase::Reading ==> s.next < t.0.next && all_failed(
                    t.0,
                    s.next + 1,
                    t.0.next,
                )
                &&& t.0.phase != OutboxPhase::Reading ==> t.1 == OutboxActionView::Finish(Ok(()))
                    && all_failed(t.0, s.next + 1, s.rows.len())
            }
            &&& s.phase != OutboxPhase::Listing && s.phase != OutboxPhase::Settling ==> t.0.next
                == s.next && t.0.phase != OutboxPhase::Idle && t.0.phase != OutboxPhase::Reading
        }),
{
    if let OutboxAnswer::Due(Ok(rows)) = answer {
        lemma_open_entry(rows@, s.failed, 0);
    }
    if s.phase == OutboxPhase::Settling {
        lemma_open_entry(s.rows, s.failed, s.next + 1);
    }
}

/// The entry that a mark changes.
pub open spec fn mark_id(mark: OutboxMarkView) -> OutboxId {
    match mark {
        OutboxMarkView::Sent { id, .. } => id,
        OutboxMarkView::Retry { id, .. } => id,
    }
}

/// Whether an event tells of the entry given.
pub open spec fn tells_of(event: EngineEventView, id: OutboxId) -> bool {
    match event {
        EngineEventView::OutboxRetry { id: told, .. } => told == id,
        EngineEventView::MailSent { id: told, .. } => told == id,
        EngineEventView::MailFailed { id: told, .. } => told == id,
        _ => false,
    }
}

/// An entry is remembered as failed for good exactly when it is told of so:
/// no such failure is forgotten, and nothing else is remembered.
pub proof fn law_failures_for_good_are_remembered(
    s: OutboxState,
    answer: OutboxAnswer,
    marker: MessageId,
)
    requires
        s.well_formed(),
        outbox_answers(s, answer),
    ensures
        ({
            let t = outbox_transition(s, answer, marker);
            let told = t.1 matches OutboxActionView::Settle(settled) && exists|error: SyncErrorView|
                settled.events.contains(#[trigger] failure_event(s.row().id, error));
            t.0.failed == if told {
                s.failed.push(s.row().id)
            } else {
                s.failed
            }
        }),
{
    let t = outbox_transition(s, answer, marker);
    if let OutboxActionView::Settle(settled) = t.1 {
        let outcome = match answer {
            OutboxAnswer::Blob(Err(e)) => blob_outcome(e@),
            OutboxAnswer::Submitted { result: Err(e), .. } => submission_outcome(Err(e@)),
            _ => SendOutcomeView::Sent,
        };
        let attempt = (s.row().retry_count + 1) as u32;
        if fails_for_good(s.row().retry_count, outcome) {
            let error = match outcome {
                SendOutcomeView::Permanent(detail) => SyncErrorView::MessageRejected { detail },
                _ => SyncErrorView::RetryExhausted { attempts: attempt },
            };
            assert(settled.events[0] == failure_event(s.row().id, error));
            assert(settled.events.contains(failure_event(s.row().id, error)));
        } else {
            assert forall|error: SyncErrorView| !settled.events.contains(
                #[trigger] failure_event(s.row().id, error),
            ) by {
                assert(settled.events.len() == 1);
                assert(!(settled.events[0] is MailFailed));
            }
        }
    }
}

/// An entry that failed for good is not tried again, in this flush or a later
/// one: it is never in hand for an attempt, and nothing is submitted, marked
/// or told of it any more.
pub proof fn law_failed_entry_is_not_tried_again(
    s: OutboxState,
    answer: OutboxAnswer,
    marker: MessageId,
    id: OutboxId,
)
    requires
        s.well_formed(),
        s.failed.contains(id),
    ensures
        flush_begun(s).0.failed.contains(id),
        outbox_answers(s, answer) ==> {
            let t = outbox_transition(s, answer, marker);
            &&& t.0.failed.contains(id)
            &&& t.0.trying() ==> t.0.row().id != id
            &&& t.1 is Submit ==> t.0.trying()
            &&& t.1 matches OutboxActionView::Settle(settled) ==> {
                &&& settled.mark matches Some(mark) ==> mark_id(mark) != id
                &&& forall|i: int|
                    0 <= i < settled.events.len() ==> !tells_of(#[trigger] settled.events[i], id)
            }
        },
{
    if outbox_answers(s, answer) {
        let t = outbox_transition(s, answer, marker);
        law_flush_settles_each_entry_once(s, answer, marker);
        let at = choose|i: int| 0 <= i < s.failed.len() && s.failed[i] == id;
        assert(s.failed.push(s.row().id)[at] == id);
        if t.0.trying() {
            assert(!t.0.failed.contains(t.0.row().id));
        }
    }
}

/// A flush fails only where the due entries cannot be listed; the failure of
/// an attempt is told of by events.
pub proof fn law_only_listing_fails_a_flush(s: OutboxState, answer: OutboxAnswer, marker: MessageId)
    requires
        outbox_answers(s, answer),
    ensures
        outbox_transition(s, answer, marker).1 matches OutboxActionView::Finish(Err(e)) ==> (
        answer matches OutboxAnswer::Due(Err(cause)) && e == SyncErrorView::Store(cause@)),
{
}

/// A message that the server took is filed as it was submitted, and then
/// marked sent whatever came of the filing.
pub proof fn law_sent_mail_is_filed(
    s: OutboxState,
    raw: Vec<u8>,
    sent: i64,
    filed: i64,
    marker: MessageId,
)
    requires
        s.phase == OutboxPhase::Reading,
    ensures
        ({
            let submitting = outbox_transition(s, OutboxAnswer::Blob(Ok(raw)), marker);
            let filing = outbox_transition(
                submitting.0,
                OutboxAnswer::Submitted { result: Ok(()), now: sent },
                marker,
            );
            let settling = outbox_transition(filing.0, OutboxAnswer::Filed { now: filed }, marker);
            &&& submitting.1 == (OutboxActionView::Submit {
                from: s.row().envelope.from.email@,
                recipients: recipients_of(s.row().envelope),
                raw: raw@,
            })
            &&& filing.1 == (OutboxActionView::FileSent { raw: raw@ })
            &&& settling.1 == OutboxActionView::Settle(
                SettlementView {
                    mark: Some(OutboxMarkView::Sent { id: s.row().id, sent_at: filed }),
                    events: seq![EngineEventView::MailSent { id: s.row().id, message: marker }],
                },
            )
        }),
{
}

/// A failure for good is told of once and not rescheduled.
pub proof fn law_permanent_failure_is_not_retried(
    id: OutboxId,
    retry_count: u32,
    detail: Seq<char>,
    now: i64,
    marker: MessageId,
)
    ensures
        settlement(id, retry_count, SendOutcomeView::Permanent(detail), now, marker) == (
        SettlementView {
            mark: None,
            events: seq![failure_event(id, SyncErrorView::MessageRejected { detail })],
        }),
{
}

/// A message goes to an address exactly when the address is that of an entry
/// of the envelope's To, Cc or Bcc list.
pub proof fn law_recipients_come_from_all_three_lists(envelope: OutboxEnvelope, email: Seq<char>)
    ensures
        recipients_of(envelope).contains(email) <==> {
            ||| exists|i: int| 0 <= i < envelope.to@.len() && (#[trigger] envelope.to@[i]).email@
                == email
            ||| exists|i: int| 0 <= i < envelope.cc@.len() && (#[trigger] envelope.cc@[i]).email@
                == email
            ||| exists|i: int| 0 <= i < envelope.bcc@.len() && (#[trigger] envelope.bcc@[i]).email@
                == email
        },
{
    let all = addressees(envelope);
    let to = envelope.to@;
    let cc = envelope.cc@;
    let bcc = envelope.bcc@;
    let n = to.len() as int;
    let m = n + cc.len();
    lemma_without_repeats(all);
    assert(recipients_of(envelope).contains(email) <==> all.contains(email));
    assert forall|i: int| 0 <= i < to.len() implies all[i] == (#[trigger] to[i]).email@ by {}
    assert forall|i: int| 0 <= i < cc.len() implies all[n + i] == (#[trigger] cc[i]).email@ by {}
    assert forall|i: int| 0 <= i < bcc.len() implies all[m + i] == (#[trigger] bcc[i]).email@ by {}
    if all.contains(email) {
        let k = choose|k: int| 0 <= k < all.len() && all[k] == email;
        if k < n {
            assert(to[k].email@ == email);
        } else if k < m {
            assert(cc[k - n].email@ == email);
        } else {
            assert(bcc[k - m].email@ == email);
        }
    }
    if exists|i: int| 0 <= i < to.len() && (#[trigger] to[i]).email@ == email {
        let i = choose|i: int| 0 <= i < to.len() && (#[trigger] to[i]).email@ == email;
        assert(all[i] == email);
    }
    if exists|i: int| 0 <= i < cc.len() && (#[trigger] cc[i]).email@ == email {
        let i = choose|i: int| 0 <= i < cc.len() && (#[trigger] cc[i]).email@ == email;
        assert(all[n + i] == email);
    }
    if exists|i: int| 0 <= i < bcc.len() && (#[trigger] bcc[i]).email@ == email {
        let i = choose|i: int| 0 <= i < bcc.len() && (#[trigger] bcc[i]).email@ == email;
        assert(all[m + i] == email);
    }
}

/// How the recipients grow with the envelope: nobody named, nobody written
/// to; one more entry at the end of To, then Cc, then Bcc adds one more
/// recipient at the end, unless it repeats the last one.
pub proof fn law_recipients_grow_in_order(
    envelope: OutboxEnvelope,
    longer: OutboxEnvelope,
    a: Address,
)
    requires
        ({
            ||| longer.to@ == envelope.to@ && longer.cc@ == envelope.cc@ && longer.bcc@
                == envelope.bcc@.push(a)
            ||| longer.to@ == envelope.to@ && longer.cc@ == envelope.cc@.push(a)
                && envelope.bcc@.len() == 0 && longer.bcc@.len() == 0
            ||| longer.to@ == envelope.to@.push(a) && envelope.cc@.len() == 0 && longer.cc@.len()
                == 0 && envelope.bcc@.len() == 0 && longer.bcc@.len() == 0
        }),
    ensures
        envelope.to@.len() == 0 && envelope.cc@.len() == 0 && envelope.bcc@.len() == 0
            ==> recipients_of(envelope).len() == 0,
        ({
            let before = recipients_of(envelope);
            recipients_of(longer) == if before.len() > 0 && before.last() == a.email@ {
                before
            } else {
                before.push(a.email@)
            }
        }),
{
    let short = addressees(envelope);
    let long = addressees(longer);
    assert(long =~= short.push(a.email@));
    assert(long.drop_last() =~= short);
    lemma_without_repeats(short);
    if short.len() == 0 {
        assert(recipients_of(longer) =~= recipients_of(envelope).push(a.email@));
    } else {
        assert(long[long.len() - 2] == short.last());
    }
}

/// The delay before the next attempt: the schedule entry of the retry count
/// (30 s, 2 min, 8 min, 30 min, 2 h, then 6 h up to the twelfth attempt, and
/// again from the first), times 20 to 29 parts of 25 by the last digit of the
/// count. The product is exact, but for 29 parts of two hours, which come out
/// one millisecond short.
pub proof fn law_backoff_is_the_schedule_times_jitter(retry_count: u32)
    ensures
        ({
            let position = if retry_count == 0 {
                0int
            } else {
                (retry_count - 1) % 12
            };
            let parts = 20 + retry_count as int % 10;
            let delay = 25 * backoff_ms(retry_count);
            &&& position == 0 ==> delay == 30_000 * parts
            &&& position == 1 ==> delay == 120_000 * parts
            &&& position == 2 ==> delay == 480_000 * parts
            &&& position == 3 ==> delay == 1_800_000 * parts
            &&& position == 4 && parts < 29 ==> delay == 7_200_000 * parts
            &&& position == 4 && parts == 29 ==> delay == 7_200_000 * 29 - 25
            &&& position >= 5 ==> delay == 21_600_000 * parts
        }),
{
}

/// What a submission comes to: taken is sent, a transient status and a broken
/// connection are worth another attempt, and every other error is final and
/// told of in its own words.
pub proof fn law_submission_outcomes(code: u16, detail: Seq<char>, error: SyncErrorView)
    ensures
        submission_outcome(Ok(())) == SendOutcomeView::Sent,
        submission_outcome(Err(SyncErrorView::SmtpTransient { code }))
            == SendOutcomeView::Transient("smtp "@ + decimal(code as nat)),
        submission_outcome(Err(SyncErrorView::Transport { detail })) == SendOutcomeView::Transient(
            detail,
        ),
        submission_outcome(Err(SyncErrorView::Tls { detail })) == SendOutcomeView::Transient(
            detail,
        ),
        !(error is SmtpTransient) && !(error is Transport) && !(error is Tls)
            ==> submission_outcome(Err(error)) == SendOutcomeView::Permanent(error.text()),
{
}

/// A failed submission is settled at once. One worth another attempt is
/// rescheduled under the next number while fewer than twelve attempts were
/// made, and fails for good with the twelfth; any other failure is final.
pub proof fn law_failed_submission_is_settled(
    s: OutboxState,
    error: SyncError,
    now: i64,
    marker: MessageId,
)
    requires
        s.phase == OutboxPhase::Submitting,
        s.well_formed(),
        outbox_answers(s, OutboxAnswer::Submitted { result: Err(error), now }),
    ensures
        ({
            let t = outbox_transition(
                s,
                OutboxAnswer::Submitted { result: Err(error), now },
                marker,
            );
            let row = s.rows[s.next as int];
            let again = error@ is SmtpTransient || error@ is Transport || error@ is Tls;
            &&& t.1 matches OutboxActionView::Settle(settled) && {
                &&& settled.events.len() == 1
                &&& again && row.retry_count + 1 < 12 ==> {
                    &&& settled.mark matches Some(
                        OutboxMarkView::Retry { id, retry_count, next_attempt_at, last_error },
                    ) && settled.events[0] == (EngineEventView::OutboxRetry {
                        id: row.id,
                        attempt: retry_count,
                        next_in: (next_attempt_at - now) as u64,
                        last_error,
                    }) && id == row.id && retry_count == row.retry_count + 1 && next_attempt_at
                        == now + backoff_ms(retry_count) && last_error == match error@ {
                        SyncErrorView::SmtpTransient { code } => "smtp "@ + decimal(code as nat),
                        SyncErrorView::Transport { detail } => detail,
                        SyncErrorView::Tls { detail } => detail,
                        _ => error@.text(),
                    }
                    &&& t.0 == (OutboxState { phase: OutboxPhase::Settling, ..s })
                }
                &&& again && row.retry_count + 1 >= 12 ==> {
                    &&& settled.mark is None
                    &&& settled.events[0] == (EngineEventView::MailFailed {
                        id: row.id,
                        error: SyncErrorView::RetryExhausted {
                            attempts: (row.retry_count + 1) as u32,
                        },
                        permanent: true,
                    })
                    &&& t.0 == (OutboxState {
                        phase: OutboxPhase::Settling,
                        failed: s.failed.push(row.id),
                        ..s
                    })
                }
                &&& !again ==> {
                    &&& settled.mark is None
                    &&& settled.events[0] == (EngineEventView::MailFailed {
                        id: row.id,
                        error: SyncErrorView::MessageRejected { detail: error@.text() },
                        permanent: true,
                    })
                    &&& t.0 == (OutboxState {
                        phase: OutboxPhase::Settling,
                        failed: s.failed.push(row.id),
                        ..s
                    })
                }
            }
        }),
{
    law_backoff_stays_near_the_schedule((s.row().retry_count + 1) as u32);
}

/// An entry whose raw message cannot be read fails for good, and its event
/// says so.
pub proof fn law_unreadable_message_fails_for_good(
    s: OutboxState,
    error: StoreError,
    marker: MessageId,
)
    ensures
        ({
            let t = outbox_transition(s, OutboxAnswer::Blob(Err(error)), marker);
            let id = s.rows[s.next as int].id;
            &&& t.0 == (OutboxState {
                phase: OutboxPhase::Settling,
                failed: s.failed.push(id),
                ..s
            })
            &&& t.1 == OutboxActionView::Settle(
                SettlementView {
                    mark: None,
                    events: seq![
                        EngineEventView::MailFailed {
                            id,
                            error: SyncErrorView::MessageRejected {
                                detail: "raw blob unavailable: "@ + error@.text(),
                            },
                            permanent: true,
                        },
                    ],
                },
            )
        }),
{
}

/// What a flush does between its answers: the raw message of the entry in
/// hand is read, submitted from the envelope's sender to its recipients, and
/// filed as it was read; nothing else of the service changes.
pub proof fn law_entry_is_read_submitted_and_filed(
    s: OutboxState,
    rows: Vec<OutboxRow>,
    raw: Vec<u8>,
    now: i64,
    marker: MessageId,
)
    ensures
        flush_begun(s) == (
            OutboxState { phase: OutboxPhase::Listing, ..s },
            OutboxActionView::ListDue,
        ),
        ({
            let t = outbox_transition(s, OutboxAnswer::Due(Ok(rows)), marker);
            &&& t.0.failed == s.failed && t.0.raw == s.raw && t.0.rows == rows@
            &&& t.0.phase == OutboxPhase::Reading || t.0.phase == OutboxPhase::Idle
            &&& t.0.phase == OutboxPhase::Reading ==> t.0.next < rows@.len() && t.1
                == OutboxActionView::ReadBlob(rows@[t.0.next as int].raw_blob@)
                && !s.failed.contains(rows@[t.0.next as int].id)
            &&& t.0.phase == OutboxPhase::Idle ==> t.1 == OutboxActionView::Finish(Ok(()))
        }),
        s.next < s.rows.len() ==> {
            let t = outbox_transition(s, OutboxAnswer::Settled, marker);
            &&& t.0.failed == s.failed && t.0.raw == s.raw && t.0.rows == s.rows
            &&& t.0.phase == OutboxPhase::Reading || t.0.phase == OutboxPhase::Idle
            &&& t.0.phase == OutboxPhase::Reading ==> s.next < t.0.next < s.rows.len() && t.1
                == OutboxActionView::ReadBlob(s.rows[t.0.next as int].raw_blob@)
                && !s.failed.contains(s.rows[t.0.next as int].id)
            &&& t.0.phase == OutboxPhase::Idle ==> t.1 == OutboxActionView::Finish(Ok(()))
        },
        ({
            let t = outbox_transition(s, OutboxAnswer::Blob(Ok(raw)), marker);
            let envelope = s.rows[s.next as int].envelope;
            &&& t.0 == (OutboxState { phase: OutboxPhase::Submitting, raw: raw@, ..s })
            &&& t.1 == (OutboxActionView::Submit {
                from: envelope.from.email@,
                recipients: recipients_of(envelope),
                raw: raw@,
            })
        }),
        ({
            let t = outbox_transition(
                s,
                OutboxAnswer::Submitted { result: Ok(()), now },
                marker,
            );
            &&& t.0 == (OutboxState { phase: OutboxPhase::Filing, ..s })
            &&& t.1 == (OutboxActionView::FileSent { raw: s.raw })
        }),
        ({
            let t = outbox_transition(s, OutboxAnswer::Filed { now }, marker);
            let id = s.rows[s.next as int].id;
            &&& t.0 == (OutboxState { phase: OutboxPhase::Settling, ..s })
            &&& t.1 == OutboxActionView::Settle(
                SettlementView {
                    mark: Some(OutboxMarkView::Sent { id, sent_at: now }),
                    events: seq![EngineEventView::MailSent { id, message: marker }],
                },
            )
        }),
{
    lemma_open_entry(rows@, s.failed, 0);
    if s.next < s.rows.len() {
        lemma_open_entry(s.rows, s.failed, s.next + 1);
    }
}

/// The store's error ends a flush as it is.
pub proof fn law_listing_error_ends_the_flush(
    s: OutboxState,
    error: StoreError,
    marker: MessageId,
)
    ensures
        outbox_transition(s, OutboxAnswer::Due(Err(error)), marker) == (
            OutboxState { phase: OutboxPhase::Idle, ..s },
            OutboxActionView::Finish(Err(SyncErrorView::Store(error@))),
        ),
{
}

/// Which answers the service takes: the one to its last action, whatever the
/// answer says, but for a failure worth another attempt whose number or time
/// would leave its range.
pub proof fn law_service_takes_the_awaited_answer(s: OutboxState, answer: OutboxAnswer)
    ensures
        outbox_answers(s, answer) <==> match answer {
            OutboxAnswer::Due(_) => s.phase == OutboxPhase::Listing,
            OutboxAnswer::Blob(_) => s.phase == OutboxPhase::Reading,
            OutboxAnswer::Filed { .. } => s.phase == OutboxPhase::Filing,
            OutboxAnswer::Settled => s.phase == OutboxPhase::Settling,
            OutboxAnswer::Submitted { result, now } => {
                let tried = s.rows[s.next as int].retry_count;
                let again = match result {
                    Ok(_) => false,
                    Err(e) => e@ is SmtpTransient || e@ is Transport || e@ is Tls,
                };
                s.phase == OutboxPhase::Submitting && (!again || (tried < u32::MAX && (tried + 1
                    >= 12 || now + backoff_ms((tried + 1) as u32) <= i64::MAX)))
            },
        },
{
}

/// A fresh service has no flush under way, no entry and no failure.
pub proof fn law_fresh_service_is_idle()
    ensures
        OutboxState::fresh().phase == OutboxPhase::Idle,
        OutboxState::fresh().rows.len() == 0,
        OutboxState::fresh().next == 0,
        OutboxState::fresh().raw.len() == 0,
        OutboxState::fresh().failed.len() == 0,
{
}

/// The first zero byte: every byte before it is another, and it is zero,
/// unless there is none.
pub proof fn law_first_zero_byte(bytes: Seq<u8>)
    ensures
        first_nul(bytes) <= bytes.len(),
        forall|i: int| 0 <= i < first_nul(bytes) ==> #[trigger] bytes[i] != 0,
        first_nul(bytes) < bytes.len() ==> bytes[first_nul(bytes) as int] == 0,
    decreases bytes.len(),
{
    if bytes.len() > 0 && bytes[0] != 0 {
        let rest = bytes.skip(1);
        law_first_zero_byte(rest);
        assert forall|i: int| 0 <= i < first_nul(bytes) implies #[trigger] bytes[i] != 0 by {
            if i > 0 {
                assert(rest[i - 1] == bytes[i]);
            }
        }
    }
}

/// The service flushes every five seconds, gives the filing of a message a
/// minute and an entry twelve attempts.
pub proof fn law_outbox_limits()
    ensures
        FLUSH_INTERVAL_MS == 5_000,
        APPEND_TIMEOUT_MS == 60_000,
        MAX_RETRY_ATTEMPTS == 12,
        LONGEST_RETRY_MS * 25 == 21_600_000 * 29,
{
}

/// What an outcome, a mark and a settlement are seen as: their own fields.
pub proof fn law_settlements_keep_their_fields(
    settled: Settlement,
    mark: OutboxMark,
    outcome: SendOutcome,
)
    ensures
        settled@.mark is Some <==> settled.mark is Some,
        settled.mark matches Some(m) ==> settled@.mark == Some(m@),
        settled@.events.len() == settled.events@.len(),
        forall|i: int|
            0 <= i < settled.events@.len() ==> #[trigger] settled@.events[i]
                == settled.events@[i]@,
        mark matches OutboxMark::Sent { id, sent_at } ==> mark@ == (OutboxMarkView::Sent {
            id,
            sent_at,
        }),
        mark matches OutboxMark::Retry { id, retry_count, next_attempt_at, last_error } ==> mark@
            == (OutboxMarkView::Retry { id, retry_count, next_attempt_at, last_error: last_error@ }),
        outcome is Sent <==> outcome@ is Sent,
        outcome matches SendOutcome::Transient(detail) ==> outcome@ == SendOutcomeView::Transient(
            detail@,
        ),
        outcome matches SendOutcome::Permanent(detail) ==> outcome@ == SendOutcomeView::Permanent(
            detail@,
        ),
{
}

/// What an action is seen as: its own fields.
pub proof fn law_outbox_actions_keep_their_fields(action: OutboxAction)
    ensures
        match action {
            OutboxAction::ListDue => action@ == OutboxActionView::ListDue,
            OutboxAction::ReadBlob(hash) => action@ == OutboxActionView::ReadBlob(hash@),
            OutboxAction::Submit { from, recipients, raw } => {
                &&& action@ matches OutboxActionView::Submit { from: f, recipients: to, raw: r }
                &&& f == from@
                &&& to.len() == recipients@.len()
                &&& forall|i: int| 0 <= i < to.len() ==> #[trigger] to[i] == recipients@[i]@
                &&& r == raw@
            },
            OutboxAction::FileSent { raw } => action@ == (OutboxActionView::FileSent { raw: raw@ }),
            OutboxAction::Settle(settled) => action@ == OutboxActionView::Settle(settled@),
            OutboxAction::Finish(Ok(_)) => action@ == OutboxActionView::Finish(Ok(())),
            OutboxAction::Finish(Err(e)) => action@ == OutboxActionView::Finish(Err(e@)),
        },
{
}

}
