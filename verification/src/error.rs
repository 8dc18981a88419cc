//! Error taxonomy for sync internals and the storage seam.
//!
//! [`SyncError`] is the single error type of the network engines; storage
//! failures arrive wrapped as [`StoreError`]. The texts that `to_string` gives
//! are stable identifiers suitable for logging and test assertions.

use vstd::prelude::*;
use vstd::string::StringExecFns;

use crate::text::{decimal, decimal_text};

verus! {

/// Errors internal to the sync engines.
#[derive(Debug)]
pub enum SyncError {
    /// Transport/auth/storage failure surfaced by the store seam.
    Store(StoreError),
    /// Connection lost / IO error / timeout.
    Transport {
        /// Human-readable failure detail.
        detail: String,
    },
    /// TLS handshake failure.
    Tls {
        /// Human-readable failure detail.
        detail: String,
    },
    /// Server rejected the credentials.
    CredentialsRejected,
    /// SASL exchange failed locally (malformed challenge).
    Sasl(String),
    /// Server lacks a capability required for the operation.
    CapabilityMissing(String),
    /// Protocol-level misuse detected locally.
    Protocol(String),
    /// Transient 4xx SMTP failure; retry with backoff.
    SmtpTransient {
        /// The 4xx status code.
        code: u16,
    },
    /// Server permanently rejected the message.
    MessageRejected {
        /// Human-readable failure detail.
        detail: String,
    },
    /// Draft/envelope failed validation; user must fix.
    DraftInvalid {
        /// Human-readable failure detail.
        detail: String,
    },
    /// Retry budget exhausted; the message is preserved for inspection.
    RetryExhausted {
        /// Number of attempts made.
        attempts: u32,
    },
}

/// Storage-seam error returned by the store.
#[derive(Debug)]
pub enum StoreError {
    /// Requested entity does not exist.
    NotFound(String),
    /// Blob referenced but absent in the content store.
    BlobMissing(String),
    /// Any other storage failure (IO, integrity, quota).
    Failed(String),
}

/// Result alias for sync internals.
pub type SyncResult<T> = Result<T, SyncError>;

/// The contents of a [`SyncError`].
#[verifier::ext_equal]
pub enum SyncErrorView {
    Store(StoreErrorView),
    Transport { detail: Seq<char> },
    Tls { detail: Seq<char> },
    CredentialsRejected,
    Sasl(Seq<char>),
    CapabilityMissing(Seq<char>),
    Protocol(Seq<char>),
    SmtpTransient { code: u16 },
    MessageRejected { detail: Seq<char> },
    DraftInvalid { detail: Seq<char> },
    RetryExhausted { attempts: u32 },
}

/// The contents of a [`StoreError`].
#[verifier::ext_equal]
pub enum StoreErrorView {
    NotFound(Seq<char>),
    BlobMissing(Seq<char>),
    Failed(Seq<char>),
}

impl View for StoreError {
    type V = StoreErrorView;

    open spec fn view(&self) -> StoreErrorView {
        match self {
            StoreError::NotFound(what) => StoreErrorView::NotFound(what@),
            StoreError::BlobMissing(what) => StoreErrorView::BlobMissing(what@),
            StoreError::Failed(what) => StoreErrorView::Failed(what@),
        }
    }
}

impl View for SyncError {
    type V = SyncErrorView;

    open spec fn view(&self) -> SyncErrorView {
        match self {
            SyncError::Store(e) => SyncErrorView::Store(e@),
            SyncError::Transport { detail } => SyncErrorView::Transport { detail: detail@ },
            SyncError::Tls { detail } => SyncErrorView::Tls { detail: detail@ },
            SyncError::CredentialsRejected => SyncErrorView::CredentialsRejected,
            SyncError::Sasl(what) => SyncErrorView::Sasl(what@),
            SyncError::CapabilityMissing(what) => SyncErrorView::CapabilityMissing(what@),
            SyncError::Protocol(what) => SyncErrorView::Protocol(what@),
            SyncError::SmtpTransient { code } => SyncErrorView::SmtpTransient { code: *code },
            SyncError::MessageRejected { detail } => SyncErrorView::MessageRejected {
                detail: detail@,
            },
            SyncError::DraftInvalid { detail } => SyncErrorView::DraftInvalid { detail: detail@ },
            SyncError::RetryExhausted { attempts } => SyncErrorView::RetryExhausted {
                attempts: *attempts,
            },
        }
    }
}

impl StoreErrorView {
    /// The text of the error.
    pub open spec fn text(self) -> Seq<char> {
        match self {
            StoreErrorView::NotFound(what) => "not found: "@ + what,
            StoreErrorView::BlobMissing(what) => "blob missing: "@ + what,
            StoreErrorView::Failed(what) => "storage failure: "@ + what,
        }
    }
}

impl SyncErrorView {
    /// The text of the error; a wrapped store error shows its own text.
    pub open spec fn text(self) -> Seq<char> {
        match self {
            SyncErrorView::Store(e) => e.text(),
            SyncErrorView::Transport { detail } => "transport: "@ + detail,
            SyncErrorView::Tls { detail } => "tls handshake: "@ + detail,
            SyncErrorView::CredentialsRejected => "credentials rejected"@,
            SyncErrorView::Sasl(what) => "sasl: "@ + what,
            SyncErrorView::CapabilityMissing(what) => "capability missing: "@ + what,
            SyncErrorView::Protocol(what) => "protocol: "@ + what,
            SyncErrorView::SmtpTransient { code } => "smtp transient "@ + decimal(code as nat),
            SyncErrorView::MessageRejected { detail } => "message rejected: "@ + detail,
            SyncErrorView::DraftInvalid { detail } => "draft invalid: "@ + detail,
            SyncErrorView::RetryExhausted { attempts } => "retry exhausted after "@ + decimal(
                attempts as nat,
            ) + " attempts"@,
        }
    }
}

/// `prefix` followed by `rest`.
pub fn prefixed(prefix: &str, rest: &str) -> (r: String)
    ensures
        r@ == prefix@ + rest@,
{
    let mut out = prefix.to_string();
    out.append(rest);
    out
}

impl StoreError {
    /// The stable text of the error.
    #[must_use]
    pub fn to_string(&self) -> (r: String)
        ensures
            r@ == self@.text(),
    {
        match self {
            StoreError::NotFound(what) => prefixed("not found: ", what.as_str()),
            StoreError::BlobMissing(what) => prefixed("blob missing: ", what.as_str()),
            StoreError::Failed(what) => prefixed("storage failure: ", what.as_str()),
        }
    }
}

impl SyncError {
    /// The stable text of the error.
    #[must_use]
    pub fn to_string(&self) -> (r: String)
        ensures
            r@ == self@.text(),
    {
        match self {
            SyncError::Store(e) => e.to_string(),
            SyncError::Transport { detail } => prefixed("transport: ", detail.as_str()),
            SyncError::Tls { detail } => prefixed("tls handshake: ", detail.as_str()),
            SyncError::CredentialsRejected => "credentials rejected".to_string(),
            SyncError::Sasl(what) => prefixed("sasl: ", what.as_str()),
            SyncError::CapabilityMissing(what) => prefixed("capability missing: ", what.as_str()),
            SyncError::Protocol(what) => prefixed("protocol: ", what.as_str()),
            SyncError::SmtpTransient { code } => prefixed(
                "smtp transient ",
                decimal_text(*code as u64).as_str(),
            ),
            SyncError::MessageRejected { detail } => prefixed(
                "message rejected: ",
                detail.as_str(),
            ),
            SyncError::DraftInvalid { detail } => prefixed("draft invalid: ", detail.as_str()),
            SyncError::RetryExhausted { attempts } => {
                let mut out = prefixed(
                    "retry exhausted after ",
                    decimal_text(*attempts as u64).as_str(),
                );
                out.append(" attempts");
                out
            },
        }
    }
}

impl Clone for StoreError {
    fn clone(&self) -> (r: Self)
        ensures
            r == *self,
    {
        match self {
            StoreError::NotFound(what) => StoreError::NotFound(what.clone()),
            StoreError::BlobMissing(what) => StoreError::BlobMissing(what.clone()),
            StoreError::Failed(what) => StoreError::Failed(what.clone()),
        }
    }
}

impl Clone for SyncError {
    fn clone(&self) -> (r: Self)
        ensures
            r == *self,
    {
        match self {
            SyncError::Store(e) => SyncError::Store(e.clone()),
            SyncError::Transport { detail } => SyncError::Transport { detail: detail.clone() },
            SyncError::Tls { detail } => SyncError::Tls { detail: detail.clone() },
            SyncError::CredentialsRejected => SyncError::CredentialsRejected,
            SyncError::Sasl(what) => SyncError::Sasl(what.clone()),
            SyncError::CapabilityMissing(what) => SyncError::CapabilityMissing(what.clone()),
            SyncError::Protocol(what) => SyncError::Protocol(what.clone()),
            SyncError::SmtpTransient { code } => SyncError::SmtpTransient { code: *code },
            SyncError::MessageRejected { detail } => SyncError::MessageRejected {
                detail: detail.clone(),
            },
            SyncError::DraftInvalid { detail } => SyncError::DraftInvalid {
                detail: detail.clone(),
            },
            SyncError::RetryExhausted { attempts } => SyncError::RetryExhausted {
                attempts: *attempts,
            },
        }
    }
}

impl From<StoreError> for SyncError {
    fn from(e: StoreError) -> (r: Self) {
        SyncError::Store(e)
    }
}

impl vstd::std_specs::convert::FromSpecImpl<StoreError> for SyncError {
    open spec fn obeys_from_spec() -> bool {
        true
    }

    open spec fn from_spec(e: StoreError) -> Self {
        SyncError::Store(e)
    }
}

/// Wrapping a store error keeps its text.
pub proof fn law_wrapped_store_error_keeps_its_text(e: StoreErrorView)
    ensures
        SyncErrorView::Store(e).text() == e.text(),
{
}

/// Each error shows its kind in fixed words and its detail in full.
pub proof fn law_errors_show_kind_and_detail(detail: Seq<char>, code: u16, attempts: u32)
    ensures
        StoreErrorView::NotFound(detail).text() == "not found: "@ + detail,
        StoreErrorView::BlobMissing(detail).text() == "blob missing: "@ + detail,
        StoreErrorView::Failed(detail).text() == "storage failure: "@ + detail,
        (SyncErrorView::Transport { detail }).text() == "transport: "@ + detail,
        (SyncErrorView::Tls { detail }).text() == "tls handshake: "@ + detail,
        SyncErrorView::CredentialsRejected.text() == "credentials rejected"@,
        SyncErrorView::Sasl(detail).text() == "sasl: "@ + detail,
        SyncErrorView::CapabilityMissing(detail).text() == "capability missing: "@ + detail,
        SyncErrorView::Protocol(detail).text() == "protocol: "@ + detail,
        (SyncErrorView::SmtpTransient { code }).text() == "smtp transient "@ + decimal(
            code as nat,
        ),
        (SyncErrorView::MessageRejected { detail }).text() == "message rejected: "@ + detail,
        (SyncErrorView::DraftInvalid { detail }).text() == "draft invalid: "@ + detail,
        (SyncErrorView::RetryExhausted { attempts }).text() == "retry exhausted after "@ + decimal(
            attempts as nat,
        ) + " attempts"@,
{
}

/// What an error is seen as: its kind and its own detail.
pub proof fn law_errors_keep_their_details(error: SyncError, cause: StoreError)
    ensures
        match error {
            SyncError::Store(e) => error@ == SyncErrorView::Store(e@),
            SyncError::Transport { detail } => error@ == (SyncErrorView::Transport {
                detail: detail@,
            }),
            SyncError::Tls { detail } => error@ == (SyncErrorView::Tls { detail: detail@ }),
            SyncError::CredentialsRejected => error@ == SyncErrorView::CredentialsRejected,
            SyncError::Sasl(what) => error@ == SyncErrorView::Sasl(what@),
            SyncError::CapabilityMissing(what) => error@ == SyncErrorView::CapabilityMissing(what@),
            SyncError::Protocol(what) => error@ == SyncErrorView::Protocol(what@),
            SyncError::SmtpTransient { code } => error@ == (SyncErrorView::SmtpTransient { code }),
            SyncError::MessageRejected { detail } => error@ == (SyncErrorView::MessageRejected {
                detail: detail@,
            }),
            SyncError::DraftInvalid { detail } => error@ == (SyncErrorView::DraftInvalid {
                detail: detail@,
            }),
            SyncError::RetryExhausted { attempts } => error@ == (SyncErrorView::RetryExhausted {
                attempts,
            }),
        },
        match cause {
            StoreError::NotFound(what) => cause@ == StoreErrorView::NotFound(what@),
            StoreError::BlobMissing(what) => cause@ == StoreErrorView::BlobMissing(what@),
            StoreError::Failed(what) => cause@ == StoreErrorView::Failed(what@),
        },
{
}

}
