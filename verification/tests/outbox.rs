//! The outbox flush and its retry schedule.

use std::time::Duration;

use mail_sync_kit::outbox_service::{
    append_command, backoff_for, classify, flush_decision, recipients, settle, FlushDecision,
    OutboxAction, OutboxAnswer, OutboxMark, OutboxPhase, SendOutcome, Settlement,
    APPEND_TIMEOUT_MS, LONGEST_RETRY_MS, MAX_RETRY_ATTEMPTS,
};
use mail_sync_kit::{
    AccountId, Address, BlobHash, EngineEvent, MessageId, OutboxEnvelope, OutboxId, OutboxRow,
    OutboxService, StoreError, SyncError,
};

fn backoff(attempt: u32) -> Duration {
    Duration::from_millis(backoff_for(attempt))
}

#[test]
fn backoff_matches_documented_schedule_with_jitter() {
    // Base table: 30s, 120s, 480s, 30m, 2h, then 6h forever.
    let expected = |attempt: u32, base_ms: u64| {
        let jitter = 1.0 + (f64::from(attempt % 10) / 25.0) - 0.2;
        Duration::from_millis((base_ms as f64 * jitter) as u64)
    };
    let cases = [
        (1, 30_000),
        (2, 120_000),
        (3, 480_000),
        (4, 1_800_000),
        (5, 7_200_000),
        (6, 21_600_000),
        (13, 30_000), // wraps
    ];
    for (attempt, base_ms) in cases {
        let backoff = backoff(attempt);
        assert_eq!(backoff, expected(attempt, base_ms));
        // Jitter stays within ±20% of the base.
        let base = Duration::from_millis(base_ms);
        assert!(backoff >= base.mul_f64(0.79) && backoff <= base.mul_f64(1.21));
    }
}

#[test]
fn backoff_zero_and_overflow_are_safe() {
    assert!(backoff(0).as_millis() > 0);
    assert!(backoff(u32::MAX).as_millis() > 0);
}

#[test]
fn backoff_agrees_with_the_scaled_schedule_everywhere() {
    let schedule: [u64; 12] = [
        30_000, 120_000, 480_000, 1_800_000, 7_200_000, 21_600_000, 21_600_000, 21_600_000,
        21_600_000, 21_600_000, 21_600_000, 21_600_000,
    ];
    let expected = |attempt: u32| {
        let base = schedule[attempt.saturating_sub(1) as usize % schedule.len()];
        let jitter = 1.0 + (f64::from(attempt % 10) / 25.0) - 0.2;
        (base as f64 * jitter) as u64
    };
    for attempt in (0..10_000).chain(u32::MAX - 10_000..=u32::MAX) {
        assert_eq!(backoff_for(attempt), expected(attempt), "{attempt}");
        assert_eq!(OutboxService::backoff_for(attempt), backoff_for(attempt));
        assert!(backoff_for(attempt) <= LONGEST_RETRY_MS);
    }
    assert_eq!(backoff_for(1), 25_200);
    assert_eq!(backoff_for(29), 8_351_999);
    assert_eq!(backoff_for(9), LONGEST_RETRY_MS);
    assert_eq!(backoff_for(61), backoff_for(1));
}

fn addresses(list: &[&str]) -> Vec<Address> {
    list.iter().map(|a| Address::bare(a)).collect()
}

fn envelope(to: &[&str], cc: &[&str], bcc: &[&str]) -> OutboxEnvelope {
    OutboxEnvelope {
        from: Address::bare("a@b.c"),
        to: addresses(to),
        cc: addresses(cc),
        bcc: addresses(bcc),
        subject: "s".to_string(),
    }
}

fn row(number: u128, retry_count: u32) -> OutboxRow {
    OutboxRow {
        id: OutboxId::from_uuid(number),
        account: AccountId::from_uuid(1),
        raw_blob: BlobHash::from_digest(&[number as u8; 32]),
        envelope: envelope(&["x@y.z"], &[], &["x@y.z", "b@c.d"]),
        retry_count,
        last_error: None,
        created_at: 0,
    }
}

#[test]
fn recipients_drop_neighbouring_repeats() {
    assert_eq!(
        recipients(&envelope(&["a", "a", "b"], &["b", "a"], &["a", "A"])),
        vec!["a", "b", "a", "A"]
    );
    assert!(recipients(&envelope(&[], &[], &[])).is_empty());
}

fn outcome_text(outcome: SendOutcome) -> String {
    match outcome {
        SendOutcome::Sent => "sent".to_string(),
        SendOutcome::Transient(detail) => format!("transient {detail}"),
        SendOutcome::Permanent(detail) => format!("permanent {detail}"),
    }
}

#[test]
fn submissions_are_classified() {
    let detail = || "why".to_string();
    assert_eq!(outcome_text(classify(Ok(()))), "sent");
    assert_eq!(
        outcome_text(classify(Err(SyncError::SmtpTransient { code: 421 }))),
        "transient smtp 421"
    );
    assert_eq!(
        outcome_text(classify(Err(SyncError::Transport { detail: detail() }))),
        "transient why"
    );
    assert_eq!(
        outcome_text(classify(Err(SyncError::Tls { detail: detail() }))),
        "transient why"
    );
    assert_eq!(
        outcome_text(classify(Err(SyncError::CredentialsRejected))),
        "permanent credentials rejected"
    );
    assert_eq!(
        outcome_text(classify(Err(SyncError::MessageRejected { detail: detail() }))),
        "permanent message rejected: why"
    );
}

#[test]
fn retries_are_scheduled_until_the_budget_is_spent() {
    let id = OutboxId::from_uuid(5);
    for before in [0, 9, 10, 11, 12, u32::MAX - 1] {
        let settled = settle(
            id,
            before,
            SendOutcome::Transient("smtp 421".to_string()),
            1_000,
            MessageId::from_uuid(9),
        );
        let attempt = before + 1;
        assert_eq!(settled.events.len(), 1);
        if attempt >= MAX_RETRY_ATTEMPTS {
            assert!(settled.mark.is_none());
            assert!(matches!(
                &settled.events[0],
                EngineEvent::MailFailed {
                    id: told,
                    error: SyncError::RetryExhausted { attempts },
                    permanent: true
                } if *told == id && *attempts == attempt
            ));
            continue;
        }
        match settled.mark {
            Some(OutboxMark::Retry {
                id: marked,
                retry_count,
                next_attempt_at,
                last_error,
            }) => {
                assert_eq!(marked, id);
                assert_eq!(retry_count, attempt);
                assert_eq!(next_attempt_at, 1_000 + backoff_for(attempt) as i64);
                assert_eq!(last_error, "smtp 421");
            }
            other => panic!("expected a retry, got {other:?}"),
        }
        assert!(matches!(
            &settled.events[0],
            EngineEvent::OutboxRetry { id: told, attempt: n, next_in, last_error }
                if *told == id && *n == attempt && *next_in == backoff_for(attempt)
                    && last_error == "smtp 421"
        ));
    }
}

fn settled(action: OutboxAction) -> Settlement {
    match action {
        OutboxAction::Settle(settlement) => settlement,
        other => panic!("expected a settlement, got {other:?}"),
    }
}

#[test]
fn outbox_flush_missing_blob_emits_permanent_failure() {
    let id = OutboxId::from_uuid(uuid::Uuid::now_v7().as_u128());
    let entry = OutboxRow {
        id,
        account: AccountId::from_uuid(uuid::Uuid::now_v7().as_u128()),
        raw_blob: BlobHash::from_digest(&[0u8; 32]),
        envelope: envelope(&[], &[], &[]),
        retry_count: 0,
        last_error: None,
        created_at: 0,
    };
    let missing = StoreError::BlobMissing(entry.raw_blob.to_hex().to_string());

    let mut svc = OutboxService::new();
    assert_eq!(svc.phase(), OutboxPhase::Idle);
    assert!(matches!(svc.flush_once(), OutboxAction::ListDue));
    assert!(matches!(
        svc.step(OutboxAnswer::Due(Ok(vec![entry]))),
        OutboxAction::ReadBlob(_)
    ));
    let settlement = settled(svc.step(OutboxAnswer::Blob(Err(missing))));
    assert!(settlement.mark.is_none());
    assert_eq!(settlement.events.len(), 1);
    match &settlement.events[0] {
        EngineEvent::MailFailed {
            id: failed,
            permanent,
            error,
        } => {
            assert_eq!(*failed, id);
            assert!(*permanent);
            assert_eq!(
                error.to_string(),
                format!(
                    "message rejected: raw blob unavailable: blob missing: {}",
                    "00".repeat(32)
                )
            );
        }
        other => panic!("expected MailFailed, got {other:?}"),
    }
    assert!(matches!(
        svc.step(OutboxAnswer::Settled),
        OutboxAction::Finish(Ok(()))
    ));
    assert_eq!(svc.phase(), OutboxPhase::Idle);
}

#[test]
fn flush_sends_files_and_settles_each_entry() {
    let mut svc = OutboxService::new();
    svc.flush_once();
    let action = svc.step(OutboxAnswer::Due(Ok(vec![row(1, 0), row(2, 11)])));
    match action {
        OutboxAction::ReadBlob(hash) => assert_eq!(hash.to_hex(), "01".repeat(32)),
        other => panic!("expected a read, got {other:?}"),
    }
    match svc.step(OutboxAnswer::Blob(Ok(b"raw one".to_vec()))) {
        OutboxAction::Submit {
            from,
            recipients,
            raw,
        } => {
            assert_eq!(from, "a@b.c");
            assert_eq!(recipients, vec!["x@y.z", "b@c.d"]);
            assert_eq!(raw, b"raw one");
        }
        other => panic!("expected a submission, got {other:?}"),
    }
    match svc.step(OutboxAnswer::Submitted {
        result: Ok(()),
        now: 1_000,
    }) {
        OutboxAction::FileSent { raw } => assert_eq!(raw, b"raw one"),
        other => panic!("expected filing, got {other:?}"),
    }
    let marker = MessageId::from_uuid(77);
    let first = settled(svc.step_with(OutboxAnswer::Filed { now: 2_000 }, marker));
    assert!(matches!(
        first.mark,
        Some(OutboxMark::Sent { id, sent_at: 2_000 }) if id == OutboxId::from_uuid(1)
    ));
    assert!(matches!(
        first.events[..],
        [EngineEvent::MailSent { id, message }] if id == OutboxId::from_uuid(1) && message == marker
    ));
    assert!(matches!(
        svc.step(OutboxAnswer::Settled),
        OutboxAction::ReadBlob(_)
    ));
    svc.step(OutboxAnswer::Blob(Ok(b"raw two".to_vec())));
    let answer = OutboxAnswer::Submitted {
        result: Err(SyncError::SmtpTransient { code: 451 }),
        now: 3_000,
    };
    assert!(svc.accepts(&answer));
    let second = settled(svc.step(answer));
    assert!(second.mark.is_none());
    assert!(matches!(
        second.events[..],
        [EngineEvent::MailFailed {
            error: SyncError::RetryExhausted { attempts: 12 },
            permanent: true,
            ..
        }]
    ));
    assert!(matches!(
        svc.step(OutboxAnswer::Settled),
        OutboxAction::Finish(Ok(()))
    ));
}

#[test]
fn entries_that_failed_for_good_are_passed_over() {
    let mut svc = OutboxService::new();
    svc.flush_once();
    // The first entry is rejected, the second spends its budget, the third is
    // put off.
    svc.step(OutboxAnswer::Due(Ok(vec![row(1, 0), row(2, 11), row(3, 0)])));
    svc.step(OutboxAnswer::Blob(Ok(vec![])));
    let rejected = settled(svc.step(OutboxAnswer::Submitted {
        result: Err(SyncError::CredentialsRejected),
        now: 0,
    }));
    assert!(matches!(
        rejected.events[..],
        [EngineEvent::MailFailed { permanent: true, .. }]
    ));
    for _ in 0..2 {
        assert!(matches!(
            svc.step(OutboxAnswer::Settled),
            OutboxAction::ReadBlob(_)
        ));
        svc.step(OutboxAnswer::Blob(Ok(vec![])));
        settled(svc.step(OutboxAnswer::Submitted {
            result: Err(SyncError::SmtpTransient { code: 421 }),
            now: 0,
        }));
    }
    assert!(matches!(
        svc.step(OutboxAnswer::Settled),
        OutboxAction::Finish(Ok(()))
    ));

    // The next flush tries the third entry alone.
    svc.flush_once();
    match svc.step(OutboxAnswer::Due(Ok(vec![row(1, 0), row(2, 11), row(3, 1), row(1, 0)]))) {
        OutboxAction::ReadBlob(hash) => assert_eq!(hash.to_hex(), "03".repeat(32)),
        other => panic!("expected a read, got {other:?}"),
    }
    svc.step(OutboxAnswer::Blob(Ok(vec![])));
    svc.step(OutboxAnswer::Submitted {
        result: Ok(()),
        now: 0,
    });
    svc.step(OutboxAnswer::Filed { now: 0 });
    assert!(matches!(
        svc.step(OutboxAnswer::Settled),
        OutboxAction::Finish(Ok(()))
    ));

    // A flush that is abandoned forgets nothing either.
    svc.flush_once();
    svc.flush_once();
    assert!(matches!(
        svc.step(OutboxAnswer::Due(Ok(vec![row(2, 11), row(1, 0)]))),
        OutboxAction::Finish(Ok(()))
    ));
}

#[test]
fn retries_are_timed_up_to_the_end_of_time() {
    let latest = i64::MAX - backoff_for(1) as i64;
    let failed = |now: i64| OutboxAnswer::Submitted {
        result: Err(SyncError::SmtpTransient { code: 421 }),
        now,
    };
    let mut svc = OutboxService::new();
    svc.flush_once();
    svc.step(OutboxAnswer::Due(Ok(vec![row(1, 0), row(2, 11)])));
    svc.step(OutboxAnswer::Blob(Ok(vec![])));
    assert!(!svc.accepts(&failed(latest + 1)));
    assert!(svc.accepts(&failed(latest)));
    assert!(matches!(
        settled(svc.step(failed(latest))).mark,
        Some(OutboxMark::Retry { next_attempt_at: i64::MAX, .. })
    ));
    // A spent budget needs no time for another attempt.
    svc.step(OutboxAnswer::Settled);
    svc.step(OutboxAnswer::Blob(Ok(vec![])));
    assert!(svc.accepts(&failed(i64::MAX)));
    assert!(settled(svc.step(failed(i64::MAX))).mark.is_none());
}

#[test]
fn flush_fails_where_listing_fails() {
    let mut svc = OutboxService::new();
    svc.flush_once();
    match svc.step(OutboxAnswer::Due(Err(StoreError::Failed("disk".into())))) {
        OutboxAction::Finish(Err(e)) => assert_eq!(e.to_string(), "storage failure: disk"),
        other => panic!("expected a failure, got {other:?}"),
    }
    let mut empty = OutboxService::new();
    empty.flush_once();
    assert!(matches!(
        empty.step(OutboxAnswer::Due(Ok(vec![]))),
        OutboxAction::Finish(Ok(()))
    ));
}

#[test]
fn answers_out_of_place_are_not_accepted() {
    let mut svc = OutboxService::new();
    svc.flush_once();
    assert!(!svc.accepts(&OutboxAnswer::Settled));
    assert!(svc.accepts(&OutboxAnswer::Due(Ok(vec![]))));
    svc.step(OutboxAnswer::Due(Ok(vec![row(1, u32::MAX)])));
    assert!(!svc.accepts(&OutboxAnswer::Filed { now: 0 }));
    svc.step(OutboxAnswer::Blob(Ok(vec![])));
    // The retry counter has no room left.
    assert!(!svc.accepts(&OutboxAnswer::Submitted {
        result: Err(SyncError::SmtpTransient { code: 421 }),
        now: 0
    }));
    assert!(svc.accepts(&OutboxAnswer::Submitted {
        result: Err(SyncError::CredentialsRejected),
        now: i64::MAX
    }));
}

#[test]
fn sent_mail_is_appended_without_flags() {
    let command = append_command(b"From: a\r\n\r\nbody".to_vec()).unwrap();
    assert_eq!(command.mailbox, "Sent");
    assert!(command.flags.is_empty());
    assert_eq!(command.message, b"From: a\r\n\r\nbody");
    assert_eq!(command.timeout_ms, APPEND_TIMEOUT_MS);
    assert!(append_command(vec![]).unwrap().message.is_empty());
    match append_command(b"ab\0c\0".to_vec()) {
        Err(SyncError::Protocol(what)) => assert_eq!(
            what,
            "append literal: ValidationError { kind: InvalidByteAt { byte: 0, at: 2 } }"
        ),
        other => panic!("expected a protocol error, got {other:?}"),
    }
}

#[test]
fn offline_defers_flushing_entirely() {
    assert_eq!(flush_decision(false, true), FlushDecision::Flush);
    assert_eq!(flush_decision(false, false), FlushDecision::Skip);
    assert_eq!(flush_decision(true, true), FlushDecision::FlushAndStop);
    assert_eq!(flush_decision(true, false), FlushDecision::Stop);
}
