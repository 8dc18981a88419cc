//! Clock, configuration, errors, sanitizing, SASL names, secrets and the
//! IMAP engine's decision points.

use mail_sync_kit::clock::unix_ms_from_elapsed;
use mail_sync_kit::sanitize::sanitize_terminal_text;
use mail_sync_kit::text::{
    decimal_text, join, parse_u64, same_ignoring_ascii_case, trim_end, white_space,
};
use mail_sync_kit::{
    FakeClock, SaslMechanism, SecretString, StoreError, SyncClock, SyncConfig, SyncError,
    SyncService, SystemClock,
};

#[test]
fn fake_clock_is_deterministic() {
    let mut c = FakeClock::new(1_000);
    assert_eq!(c.now_unix_ms(), 1_000);
    c.advance(500);
    assert_eq!(c.now_unix_ms(), 1_500);
}

#[test]
fn fake_clock_starts_at_the_epoch_and_runs_backwards() {
    let mut c = FakeClock::default();
    assert_eq!(c.now_unix_ms(), 0);
    c.advance(-7);
    assert_eq!(c.now_unix_ms(), -7);
}

#[test]
fn system_clock_is_monotonic_enough() {
    let c = SystemClock;
    let a = c.now_unix_ms();
    let b = c.now_unix_ms();
    assert!(b >= a);
    assert!(a > 1_600_000_000_000); // sane epoch: after 2020-09
}

#[test]
fn elapsed_time_is_capped() {
    assert_eq!(unix_ms_from_elapsed(None), 0);
    assert_eq!(unix_ms_from_elapsed(Some(1_444)), 1_444);
    assert_eq!(unix_ms_from_elapsed(Some(i64::MAX as u128)), i64::MAX);
    assert_eq!(unix_ms_from_elapsed(Some(u128::MAX)), i64::MAX);
}

#[test]
fn defaults_stay_under_server_idle_cutoff() {
    let cfg = SyncConfig::default();
    assert!(
        cfg.idle_timeout_mins < 30,
        "IDLE re-issue must stay under the common 30 min server cutoff"
    );
    assert!(cfg.poll_interval_secs > 0);
    assert!(cfg.body_prefetch_recent > 0);
}

#[test]
fn display_strings_are_stable() {
    let e = SyncError::Transport {
        detail: "closed".into(),
    };
    assert_eq!(e.to_string(), "transport: closed");
    assert_eq!(
        SyncError::CredentialsRejected.to_string(),
        "credentials rejected"
    );
    assert_eq!(
        SyncError::SmtpTransient { code: 421 }.to_string(),
        "smtp transient 421"
    );
    let s = StoreError::BlobMissing("ab/cd".into());
    let wrapped = SyncError::from(s);
    assert_eq!(wrapped.to_string(), "blob missing: ab/cd");
}

#[test]
fn every_error_has_its_text() {
    let detail = || "why".to_string();
    let cases = [
        (SyncError::Store(StoreError::NotFound(detail())), "not found: why"),
        (SyncError::Store(StoreError::Failed(detail())), "storage failure: why"),
        (SyncError::Tls { detail: detail() }, "tls handshake: why"),
        (SyncError::Sasl(detail()), "sasl: why"),
        (SyncError::CapabilityMissing(detail()), "capability missing: why"),
        (SyncError::Protocol(detail()), "protocol: why"),
        (SyncError::MessageRejected { detail: detail() }, "message rejected: why"),
        (SyncError::DraftInvalid { detail: detail() }, "draft invalid: why"),
        (
            SyncError::RetryExhausted { attempts: 12 },
            "retry exhausted after 12 attempts",
        ),
    ];
    for (error, text) in &cases {
        assert_eq!(error.to_string(), *text);
        assert_eq!(error.clone().to_string(), *text);
    }
}

#[test]
fn drops_esc_and_neutralizes_controls() {
    assert_eq!(sanitize_terminal_text("\x1b]0;title\x07ok"), "]0;title ok");
    assert_eq!(sanitize_terminal_text("a\u{1}\u{7f}b"), "a  b");
    assert_eq!(sanitize_terminal_text("tab\tkept"), "tab\tkept");
}

#[test]
fn passes_plain_text_through() {
    assert_eq!(sanitize_terminal_text("INBOX/Sent"), "INBOX/Sent");
}

#[test]
fn sanitizing_twice_changes_nothing() {
    let once = sanitize_terminal_text("\x1b[31mred\u{9b}\r\n\u{e9}");
    assert_eq!(once, "[31mred \r\n\u{e9}");
    assert_eq!(sanitize_terminal_text(&once), once);
}

#[test]
fn mechanism_wire_names() {
    assert_eq!(SaslMechanism::Plain.name(), "PLAIN");
    assert_eq!(SaslMechanism::Login.name(), "LOGIN");
    assert_eq!(SaslMechanism::ScramSha256.name(), "SCRAM-SHA-256");
    assert_eq!(SaslMechanism::Xoauth2.name(), "XOAUTH2");
}

#[test]
fn debug_never_leaks() {
    let s = SecretString::new("hunter2".into());
    assert_eq!(format!("{s:?}"), "SecretString(***)");
    assert_eq!(s.debug_text(), "SecretString(***)");
    assert_eq!(s.expose(), "hunter2");
}

#[test]
fn secrets_compare_by_contents_and_wipe() {
    let mut s = SecretString::new("hunter2".into());
    let copy = s.clone();
    assert!(s == copy);
    s.zeroize();
    assert_eq!(s.expose(), "");
    assert!(s != copy);
    assert_eq!(copy.expose(), "hunter2");
}

#[test]
fn numbers_read_and_write() {
    for n in [0, 7, 10, 421, 1_000_000, u64::MAX] {
        assert_eq!(decimal_text(n), format!("{n}"));
        assert_eq!(parse_u64(&decimal_text(n)), Some(n));
    }
    for text in [
        "", "+", "-1", "+7", "007", "1 ", "0x1", "18446744073709551615", "18446744073709551616",
        "99999999999999999999999", "1_000", "\u{661}",
    ] {
        assert_eq!(parse_u64(text), text.parse::<u64>().ok(), "{text}");
    }
}

#[test]
fn white_space_is_that_of_unicode() {
    for c in '\0'..=char::MAX {
        assert_eq!(white_space(c), c.is_whitespace(), "{c:?}");
    }
    assert_eq!(trim_end(" a b \t\u{3000}"), " a b");
    assert_eq!(trim_end(" \n"), "");
}

#[test]
fn ascii_case_is_ignored() {
    assert!(same_ignoring_ascii_case("Imap.EXAMPLE.com", "imap.example.COM"));
    assert!(!same_ignoring_ascii_case("imap", "imaps"));
    assert!(!same_ignoring_ascii_case("\u{c4}", "\u{e4}"));
}

#[test]
fn joining_puts_separators_between() {
    assert_eq!(join(&vec![], ", "), "");
    assert_eq!(join(&vec!["a".to_string()], ", "), "a");
    let parts = vec!["a".to_string(), "".to_string(), "c".to_string()];
    assert_eq!(join(&parts, ", "), "a, , c");
}

// --- SyncConfig defaults ---------------------------------------------------

fn service_with(host: &str, config: SyncConfig) -> SyncService {
    SyncService::new(host.to_string(), config)
}

#[test]
fn defaults_match_documented_values() {
    let config = SyncConfig::default();
    assert_eq!(config.poll_interval_secs, 120);
    assert_eq!(config.idle_timeout_mins, 29);
    assert!(config.idle_timeout_mins < 30);
    assert_eq!(config.body_prefetch_recent, 200);
    assert!(config.idle_poll_only_hosts.is_empty());
}

// --- idle_poll_only_hosts → should_poll ------------------------------------

#[test]
fn should_poll_idle_supported_and_unlisted_host_idles() {
    let service = service_with("imap.example.com", SyncConfig::default());
    assert!(!service.should_poll(true));
}

#[test]
fn should_poll_denied_host_polls_despite_idle() {
    let config = SyncConfig {
        idle_poll_only_hosts: vec!["broken.example.com".to_string()],
        ..SyncConfig::default()
    };
    let service = service_with("broken.example.com", config);
    assert!(service.should_poll(true));
}

#[test]
fn should_poll_denylist_matches_case_insensitively() {
    let config = SyncConfig {
        idle_poll_only_hosts: vec!["BROKEN.Example.COM".to_string()],
        ..SyncConfig::default()
    };
    let service = service_with("broken.example.com", config);
    assert!(service.should_poll(true));
}

#[test]
fn should_poll_without_idle_capability_always_polls() {
    let listed = SyncConfig {
        idle_poll_only_hosts: vec!["other.example.com".to_string()],
        ..SyncConfig::default()
    };
    assert!(service_with("imap.example.com", SyncConfig::default()).should_poll(false));
    assert!(service_with("imap.example.com", listed).should_poll(false));
}

#[test]
fn sync_service_idle_poll_only_config_is_carried() {
    let cfg = SyncConfig {
        idle_poll_only_hosts: vec!["fixture.test".to_string()],
        ..SyncConfig::default()
    };
    assert!(cfg.idle_poll_only_hosts[0].eq_ignore_ascii_case("FIXTURE.TEST"));
    assert!(service_with("FIXTURE.TEST", cfg).should_poll(true));
}

// --- idle_timeout_mins → idle_timeout --------------------------------------

#[test]
fn idle_timeout_derives_from_config_minutes() {
    let service = service_with("imap.example.com", SyncConfig::default());
    assert_eq!(service.idle_timeout(), 29 * 60);

    let config = SyncConfig {
        idle_timeout_mins: 10,
        ..SyncConfig::default()
    };
    assert_eq!(service_with("imap.example.com", config).idle_timeout(), 600);
}

// --- poll_interval_secs → poll_interval ------------------------------------

#[test]
fn poll_interval_derives_from_config_seconds() {
    let service = service_with("imap.example.com", SyncConfig::default());
    assert_eq!(service.poll_interval(), 120);

    let config = SyncConfig {
        poll_interval_secs: 7,
        ..SyncConfig::default()
    };
    assert_eq!(service_with("imap.example.com", config).poll_interval(), 7);
}

// --- body_prefetch_recent → prefetch_limit ---------------------------------

#[test]
fn prefetch_limit_derives_from_config() {
    let service = service_with("imap.example.com", SyncConfig::default());
    assert_eq!(service.prefetch_limit(), 200);

    let config = SyncConfig {
        body_prefetch_recent: 5,
        ..SyncConfig::default()
    };
    assert_eq!(service_with("imap.example.com", config).prefetch_limit(), 5);
}
