//! The JMAP sync service, driven step by step.

use mail_sync_kit::jmap::{ApiCall, HttpReply, JmapResponse, JmapSession};
use mail_sync_kit::jmap_sync::{SyncAction, SyncEvent, SyncPhase};
use mail_sync_kit::json::Json;
use mail_sync_kit::{
    AccountId, ConnectionState, EngineEvent, FakeClock, FolderDelta, FolderId, FolderRole,
    FolderRow, FolderSummary, IngestStats, JmapSyncService, SecretString, StoreError,
};
use std::collections::HashMap;

const ACCOUNT: u128 = 42;

fn service() -> JmapSyncService {
    JmapSyncService::new(
        AccountId::from_uuid(ACCOUNT),
        "mail.example".to_string(),
        SecretString::new("SECRET".to_string()),
    )
}

fn step(svc: &mut JmapSyncService, event: SyncEvent) -> SyncAction<Vec<u8>> {
    assert!(svc.accepts(&event));
    let parse = |head: &[u8]| head.to_vec();
    svc.step(event, &parse, &FakeClock::new(5))
}

fn state_of(action: &SyncAction<Vec<u8>>) -> ConnectionState {
    match action {
        SyncAction::Announce {
            state,
            event:
                EngineEvent::AccountConnection {
                    account,
                    state: told,
                },
        } => {
            assert_eq!(state, told);
            assert_eq!(*account, AccountId::from_uuid(ACCOUNT));
            *state
        }
        _ => panic!("expected an announcement"),
    }
}

fn session() -> HttpReply<JmapSession> {
    HttpReply::Answered {
        status: 200,
        body: Ok(JmapSession {
            api_url: "https://jmap.example/api".to_string(),
            download_url: String::new(),
            upload_url: String::new(),
            accounts: HashMap::new(),
            primary_accounts: HashMap::new(),
        }),
    }
}

fn text(s: &str) -> Json {
    Json::Text(s.to_string())
}

fn answer(method: &str, list: Vec<Json>, new_state: Option<&str>) -> SyncEvent {
    SyncEvent::Responded(HttpReply::Answered {
        status: 200,
        body: Ok(JmapResponse {
            method_responses: vec![Json::Array(vec![
                text(method),
                Json::Object(vec![("list".to_string(), Json::Array(list))]),
                text("id"),
            ])],
            new_state: new_state.map(String::from),
        }),
    })
}

fn mailbox(id: &str, name: &str, role: Option<&str>) -> Json {
    let mut members = vec![
        ("id".to_string(), text(id)),
        ("name".to_string(), text(name)),
    ];
    if let Some(role) = role {
        members.push(("role".to_string(), text(role)));
    }
    Json::Object(members)
}

fn message(id: &str) -> Json {
    Json::Object(vec![("id".to_string(), text(id))])
}

fn summary(id: u128) -> FolderSummary {
    FolderSummary {
        id: FolderId::from_uuid(id),
        account: AccountId::from_uuid(ACCOUNT),
        remote_name: format!("folder {id}"),
        role: None,
        delimiter: "/".to_string(),
        unread: 3,
        total: 10 + id as u64,
    }
}

fn row(id: u128, highest_modseq: u64) -> FolderRow {
    FolderRow {
        id: FolderId::from_uuid(id),
        account: AccountId::from_uuid(ACCOUNT),
        remote_name: format!("folder {id}"),
        attributes: vec![],
        role: None,
        delimiter: "/".to_string(),
        uid_validity: 0,
        highest_modseq,
    }
}

/// Brings a fresh service to the point where the mailboxes are asked for.
fn connect(svc: &mut JmapSyncService) -> ApiCall {
    assert_eq!(svc.phase(), SyncPhase::CycleGate);
    let action = step(svc, SyncEvent::Cancelled(false));
    assert_eq!(state_of(&action), ConnectionState::Connecting);
    match step(svc, SyncEvent::Done) {
        SyncAction::Discover { call, timeout_ms } => {
            assert_eq!(call.url, "https://mail.example/.well-known/jmap");
            assert_eq!(call.authorization.expose(), "Bearer SECRET");
            assert_eq!(timeout_ms, 30_000);
        }
        _ => panic!("expected discovery"),
    }
    let action = step(svc, SyncEvent::Discovered(session()));
    assert_eq!(state_of(&action), ConnectionState::Authenticating);
    let action = step(svc, SyncEvent::Done);
    assert_eq!(state_of(&action), ConnectionState::Syncing);
    match step(svc, SyncEvent::Done) {
        SyncAction::Call(call) => call,
        _ => panic!("expected a call"),
    }
}

/// Brings a fresh service to its first pass, over folders 1 and 2.
fn first_pass(svc: &mut JmapSyncService) {
    connect(svc);
    let mailboxes = vec![
        mailbox("mb2", "folder 2", None),
        mailbox("mb1", "folder 1", None),
        mailbox("mb0", "folder 1", None),
    ];
    step(svc, answer("Mailbox/get", mailboxes, None));
    // The tree is the one that is stored already.
    step(svc, SyncEvent::Folders(Ok(vec![summary(1), summary(2)])));
    for _ in 0..3 {
        step(svc, SyncEvent::Done);
    }
    step(svc, SyncEvent::Folders(Ok(vec![summary(1), summary(2)])));
    step(svc, SyncEvent::Folder(Ok(row(1, 0))));
    let action = step(svc, SyncEvent::Folder(Ok(row(2, 7))));
    assert!(matches!(action, SyncAction::CheckCancelled));
}

#[test]
fn hierarchy_is_upserted_and_reloaded() {
    let mut svc = service();
    let call = connect(&mut svc);
    assert_eq!(call.url, "https://jmap.example/api");
    assert_eq!(call.authorization.expose(), "Bearer SECRET");
    let mailboxes = vec![
        mailbox("mb1", "INBOX", Some("inbox")),
        mailbox("mb2", "x/Spam", None),
    ];
    assert!(matches!(
        step(&mut svc, answer("Mailbox/get", mailboxes, None)),
        SyncAction::ListFolders(account) if account == AccountId::from_uuid(ACCOUNT)
    ));
    match step(&mut svc, SyncEvent::Folders(Ok(vec![]))) {
        SyncAction::Upsert(folder) => {
            assert_eq!(folder.account, AccountId::from_uuid(ACCOUNT));
            assert_eq!(folder.remote_name, "INBOX");
            assert_eq!(folder.attributes, vec!["role:inbox".to_string()]);
            assert_eq!(folder.role, Some(FolderRole::Inbox));
            assert_eq!(folder.delimiter, "/");
            assert_eq!(folder.uid_validity, 0);
            assert_eq!(folder.highest_modseq, 0);
        }
        _ => panic!("expected an upsert"),
    }
    match step(&mut svc, SyncEvent::Done) {
        SyncAction::Upsert(folder) => {
            assert_eq!(folder.remote_name, "x/Spam");
            assert!(folder.attributes.is_empty());
            assert_eq!(folder.role, Some(FolderRole::Junk));
        }
        _ => panic!("expected an upsert"),
    }
    assert!(matches!(
        step(&mut svc, SyncEvent::Done),
        SyncAction::ListFolders(account) if account == AccountId::from_uuid(ACCOUNT)
    ));
    assert!(matches!(
        step(&mut svc, SyncEvent::Folders(Ok(vec![summary(1), summary(2)]))),
        SyncAction::LoadFolder(id) if id == FolderId::from_uuid(1)
    ));
    // A folder that cannot be loaded is left out of the pass.
    assert!(matches!(
        step(&mut svc, SyncEvent::Folder(Err(StoreError::NotFound("gone".into())))),
        SyncAction::LoadFolder(id) if id == FolderId::from_uuid(2)
    ));
    assert!(matches!(
        step(&mut svc, SyncEvent::Folder(Ok(row(2, 0)))),
        SyncAction::Emit(EngineEvent::FolderTreeChanged { account })
            if account == AccountId::from_uuid(ACCOUNT)
    ));
    step(&mut svc, SyncEvent::Delivered(true));
    match step(&mut svc, SyncEvent::Cancelled(false)) {
        SyncAction::Call(call) => {
            assert_eq!(call.request.since_state, None);
            let filter = call.request.method_calls[0].as_array().unwrap()[1]
                .get("filter")
                .unwrap();
            // No mailbox has this name any more: there is no id to go by.
            assert_eq!(filter.text_at("inMailbox").as_deref(), Some("folder 2"));
        }
        _ => panic!("expected a query"),
    }
}

#[test]
fn folders_are_ingested_in_turn() {
    let mut svc = service();
    first_pass(&mut svc);

    // Folder 1: two messages, one of them new, and a state token. The query
    // goes by the id of the first mailbox of that name.
    match step(&mut svc, SyncEvent::Cancelled(false)) {
        SyncAction::Call(call) => {
            assert_eq!(call.request.since_state, None);
            let filter = call.request.method_calls[0].as_array().unwrap()[1]
                .get("filter")
                .unwrap();
            assert_eq!(filter.text_at("inMailbox").as_deref(), Some("mb1"));
        }
        _ => panic!("expected a query"),
    }
    match step(
        &mut svc,
        answer("Email/get", vec![message("em1"), message("em2")], Some("1235")),
    ) {
        SyncAction::Ingest(batch) => {
            assert_eq!(batch.messages.len(), 2);
            assert_eq!(batch.messages[0].folder, FolderId::from_uuid(1));
            assert_eq!(batch.messages[1].internal_date, 5);
        }
        _ => panic!("expected a batch"),
    }
    let stats = IngestStats {
        inserted: 1,
        updated: 1,
    };
    assert!(matches!(
        step(&mut svc, SyncEvent::Ingested(Ok(stats))),
        SyncAction::ListFolders(_)
    ));
    match step(&mut svc, SyncEvent::Folders(Ok(vec![summary(2), summary(1)]))) {
        SyncAction::Emit(EngineEvent::MailArrived {
            account,
            folder,
            summary,
        }) => {
            assert_eq!(account, AccountId::from_uuid(ACCOUNT));
            assert_eq!(folder, FolderId::from_uuid(1));
            assert_eq!(
                summary,
                FolderDelta {
                    new: 1,
                    total: 11,
                    unread: 3
                }
            );
        }
        _ => panic!("expected an event"),
    }
    // Whether the bus took the event does not matter here.
    match step(&mut svc, SyncEvent::Delivered(false)) {
        SyncAction::StoreCursor {
            folder,
            uid_validity,
            highest_modseq,
        } => {
            assert_eq!(folder, FolderId::from_uuid(1));
            assert_eq!(uid_validity, 0);
            assert_eq!(highest_modseq, Some(1235));
        }
        _ => panic!("expected a cursor"),
    }
    assert!(matches!(
        step(&mut svc, SyncEvent::Done),
        SyncAction::CheckCancelled
    ));

    // Folder 2 has a cursor; nothing new, and a token that is no number.
    match step(&mut svc, SyncEvent::Cancelled(false)) {
        SyncAction::Call(call) => {
            assert_eq!(call.request.since_state.as_deref(), Some("7"));
            let filter = call.request.method_calls[0].as_array().unwrap()[1]
                .get("filter")
                .unwrap();
            assert_eq!(filter.text_at("inMailbox").as_deref(), Some("mb2"));
        }
        _ => panic!("expected a query"),
    }
    step(&mut svc, answer("Email/get", vec![message("em3")], Some("abc")));
    assert!(matches!(
        step(&mut svc, SyncEvent::Ingested(Ok(IngestStats::default()))),
        SyncAction::Wait { ms: 300_000 }
    ));

    // The next pass reloads the folders and announces no tree.
    let action = step(&mut svc, SyncEvent::Woken { cancelled: false });
    assert_eq!(state_of(&action), ConnectionState::Syncing);
    step(&mut svc, SyncEvent::Done);
    step(&mut svc, SyncEvent::Folders(Ok(vec![summary(2)])));
    assert!(matches!(
        step(&mut svc, SyncEvent::Folder(Ok(row(2, 0)))),
        SyncAction::CheckCancelled
    ));
    step(&mut svc, SyncEvent::Cancelled(false));
    // A response without messages moves on, whatever its token.
    assert!(matches!(
        step(&mut svc, answer("Email/query", vec![], Some("9"))),
        SyncAction::Wait { ms: 300_000 }
    ));
    // Listing may fail: then there is nothing to sync.
    step(&mut svc, SyncEvent::Woken { cancelled: false });
    step(&mut svc, SyncEvent::Done);
    assert!(matches!(
        step(&mut svc, SyncEvent::Folders(Err(StoreError::Failed("disk".into())))),
        SyncAction::Wait { ms: 300_000 }
    ));
}

/// Whether the first pass tells of a changed tree, given what is stored and
/// what the server lists.
fn tells_of_change(stored: Vec<FolderSummary>, mailboxes: Vec<Json>) -> bool {
    let mut svc = service();
    connect(&mut svc);
    let upserts = mailboxes.len();
    step(&mut svc, answer("Mailbox/get", mailboxes, None));
    step(&mut svc, SyncEvent::Folders(Ok(stored)));
    for _ in 0..upserts {
        step(&mut svc, SyncEvent::Done);
    }
    match step(&mut svc, SyncEvent::Folders(Ok(vec![]))) {
        SyncAction::Emit(EngineEvent::FolderTreeChanged { .. }) => true,
        SyncAction::Wait { .. } => false,
        _ => panic!("expected an event or a pause"),
    }
}

#[test]
fn tree_change_is_told_where_names_or_roles_differ() {
    let inbox = FolderSummary {
        remote_name: "INBOX".to_string(),
        role: Some(FolderRole::Inbox),
        ..summary(9)
    };
    let roleless = FolderSummary {
        role: None,
        ..inbox.clone()
    };
    let listed = || vec![mailbox("a", "folder 1", None), mailbox("b", "INBOX", None)];
    assert!(!tells_of_change(vec![], vec![]));
    assert!(!tells_of_change(vec![summary(1), inbox.clone()], listed()));
    assert!(!tells_of_change(vec![inbox.clone(), summary(1)], listed()));
    assert!(tells_of_change(vec![], listed()));
    assert!(tells_of_change(vec![summary(1)], listed()));
    assert!(tells_of_change(vec![summary(1), roleless], listed()));
    assert!(tells_of_change(vec![summary(1), inbox, summary(2)], listed()));
    assert!(tells_of_change(vec![summary(1)], vec![]));
}

#[test]
fn mail_without_a_summary_is_told_of_with_zero_counts() {
    let mut svc = service();
    first_pass(&mut svc);
    step(&mut svc, SyncEvent::Cancelled(false));
    step(&mut svc, answer("Email/get", vec![message("em1")], None));
    let stats = IngestStats {
        inserted: 1,
        updated: 0,
    };
    step(&mut svc, SyncEvent::Ingested(Ok(stats)));
    match step(&mut svc, SyncEvent::Folders(Err(StoreError::Failed("disk".into())))) {
        SyncAction::Emit(EngineEvent::MailArrived { summary, .. }) => assert_eq!(
            summary,
            FolderDelta {
                new: 1,
                total: 0,
                unread: 0
            }
        ),
        _ => panic!("expected an event"),
    }
    assert!(matches!(
        step(&mut svc, SyncEvent::Delivered(true)),
        SyncAction::CheckCancelled
    ));
}

fn failure(action: SyncAction<Vec<u8>>) -> String {
    match action {
        SyncAction::Disconnect {
            error,
            event: EngineEvent::AccountConnection { state, .. },
        } => {
            assert_eq!(state, ConnectionState::Disconnected);
            error.to_string()
        }
        _ => panic!("expected a failure"),
    }
}

#[test]
fn reconnects_back_off_exponentially() {
    let mut svc = service();
    let expected = [
        250, 500, 1_000, 2_000, 4_000, 8_000, 16_000, 32_000, 64_000, 128_000, 256_000, 300_000,
        300_000,
    ];
    for wait in expected {
        step(&mut svc, SyncEvent::Cancelled(false));
        step(&mut svc, SyncEvent::Done);
        let action = step(
            &mut svc,
            SyncEvent::Discovered(HttpReply::Failed("refused".to_string())),
        );
        assert_eq!(failure(action), "transport: refused");
        assert!(matches!(
            step(&mut svc, SyncEvent::Done),
            SyncAction::Wait { ms } if ms == wait
        ));
        assert!(matches!(
            step(&mut svc, SyncEvent::Woken { cancelled: false }),
            SyncAction::CheckCancelled
        ));
    }
    // A cycle that ends well sets the delay back.
    first_pass(&mut svc);
    assert!(matches!(
        step(&mut svc, SyncEvent::Cancelled(true)),
        SyncAction::CheckCancelled
    ));
    step(&mut svc, SyncEvent::Cancelled(false));
    step(&mut svc, SyncEvent::Done);
    let action = step(&mut svc, SyncEvent::NoHttpClient("no roots".to_string()));
    assert_eq!(failure(action), "protocol: http client: no roots");
    assert!(matches!(
        step(&mut svc, SyncEvent::Done),
        SyncAction::Wait { ms: 250 }
    ));
}

#[test]
fn every_failure_ends_the_cycle() {
    let mut svc = service();
    connect(&mut svc);
    let action = step(&mut svc, answer("Email/get", vec![], None));
    assert_eq!(
        failure(action),
        "protocol: Mailbox/get: no method response found"
    );

    let mut svc = service();
    connect(&mut svc);
    let refused = HttpReply::Answered {
        status: 503,
        body: Err(String::new()),
    };
    assert_eq!(
        failure(step(&mut svc, SyncEvent::Responded(refused))),
        "transport: JMAP API returned 503 Service Unavailable"
    );

    let mut svc = service();
    connect(&mut svc);
    step(&mut svc, answer("Mailbox/get", vec![], None));
    step(&mut svc, SyncEvent::Folders(Ok(vec![summary(1)])));
    step(&mut svc, SyncEvent::Folders(Ok(vec![])));
    assert_eq!(
        failure(step(&mut svc, SyncEvent::Delivered(false))),
        "protocol: bus closed"
    );

    let mut svc = service();
    first_pass(&mut svc);
    step(&mut svc, SyncEvent::Cancelled(false));
    step(&mut svc, answer("Email/get", vec![message("em1")], None));
    let action = step(
        &mut svc,
        SyncEvent::Ingested(Err(StoreError::Failed("disk".into()))),
    );
    assert_eq!(failure(action), "storage failure: disk");
}

#[test]
fn cancellation_stops_the_service() {
    let mut svc = service();
    assert!(matches!(
        step(&mut svc, SyncEvent::Cancelled(true)),
        SyncAction::Stop
    ));
    assert_eq!(svc.phase(), SyncPhase::Stopped);
    assert!(!svc.accepts(&SyncEvent::Cancelled(false)));
    assert!(!svc.accepts(&SyncEvent::Done));

    // During the reconnect delay.
    let mut svc = service();
    step(&mut svc, SyncEvent::Cancelled(false));
    step(&mut svc, SyncEvent::Done);
    step(&mut svc, SyncEvent::NoHttpClient(String::new()));
    step(&mut svc, SyncEvent::Done);
    assert!(matches!(
        step(&mut svc, SyncEvent::Woken { cancelled: true }),
        SyncAction::Stop
    ));

    // Between two folders.
    let mut svc = service();
    first_pass(&mut svc);
    step(&mut svc, SyncEvent::Cancelled(true));
    assert!(matches!(
        step(&mut svc, SyncEvent::Cancelled(true)),
        SyncAction::Stop
    ));

    // During the polling pause.
    let mut svc = service();
    connect(&mut svc);
    step(&mut svc, answer("Mailbox/get", vec![], None));
    step(&mut svc, SyncEvent::Folders(Ok(vec![])));
    step(&mut svc, SyncEvent::Folders(Ok(vec![])));
    assert!(matches!(
        step(&mut svc, SyncEvent::Woken { cancelled: true }),
        SyncAction::CheckCancelled
    ));
    assert!(matches!(
        step(&mut svc, SyncEvent::Cancelled(true)),
        SyncAction::Stop
    ));
}
