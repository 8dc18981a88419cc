//! JMAP requests, responses and what is read from them.

use mail_sync_kit::ingest::ingest_batch;
use mail_sync_kit::jmap::{
    HttpReply, JmapClient, JmapRequest, JmapResponse, JmapSession,
};
use mail_sync_kit::jmap_parse::{
    parse_address_list, parse_email_get, parse_mailbox_get, parse_rfc3339_ms, received_time,
    role_from_jmap, role_of_segment, uid_from_hash, ParsedAddress, ParsedEmail, ParsedMailbox,
};
use mail_sync_kit::json::Json;
use mail_sync_kit::{FakeClock, Flag, FolderId, FolderRole, SecretString, SyncError};
use serde_json::Value;
use std::collections::HashMap;
use std::hash::{Hash, Hasher};

fn json(value: &Value) -> Json {
    match value {
        Value::Null => Json::Null,
        Value::Bool(b) => Json::Bool(*b),
        Value::Number(n) => match n.as_u64() {
            Some(n) => Json::Unsigned(n),
            None => Json::OtherNumber(n.to_string()),
        },
        Value::String(s) => Json::Text(s.clone()),
        Value::Array(items) => Json::Array(items.iter().map(json).collect()),
        Value::Object(members) => {
            Json::Object(members.iter().map(|(k, v)| (k.clone(), json(v))).collect())
        }
    }
}

fn value(json: &Json) -> Value {
    match json {
        Json::Null => Value::Null,
        Json::Bool(b) => Value::Bool(*b),
        Json::Unsigned(n) => Value::from(*n),
        Json::OtherNumber(n) => read(n),
        Json::Text(s) => Value::String(s.clone()),
        Json::Array(items) => Value::Array(items.iter().map(value).collect()),
        Json::Object(members) => {
            Value::Object(members.iter().map(|(k, v)| (k.clone(), value(v))).collect())
        }
    }
}

fn read(text: &str) -> Value {
    serde_json::from_str(text).unwrap()
}

fn response(text: &str) -> JmapResponse {
    let v = read(text);
    JmapResponse {
        method_responses: v["methodResponses"]
            .as_array()
            .unwrap()
            .iter()
            .map(json)
            .collect(),
        new_state: v["newState"].as_str().map(String::from),
    }
}

fn serialized(req: JmapRequest) -> Value {
    value(&req.into_json())
}

const MAILBOX_GET_RESPONSE: &str = r#"{
    "methodResponses": [
        [
            "Mailbox/get",
            {
                "accountId": "u12345678",
                "state": "0",
                "list": [
                    {
                        "id": "mb1",
                        "name": "INBOX",
                        "parentId": null,
                        "role": "inbox",
                        "sortOrder": 0,
                        "totalEmails": 42,
                        "unreadEmails": 5,
                        "totalThreads": 42,
                        "unreadThreads": 5,
                        "myRights": {
                            "mayReadItems": true,
                            "mayAddItems": true,
                            "mayRemoveItems": true,
                            "mayCreateChild": true,
                            "mayDeleteItems": true,
                            "mayRenameMailbox": true,
                            "maySubmit": true
                        },
                        "isSubscribed": true
                    },
                    {
                        "id": "mb2",
                        "name": "Sent",
                        "parentId": null,
                        "role": "sent",
                        "sortOrder": 1,
                        "totalEmails": 100,
                        "unreadEmails": 0,
                        "totalThreads": 100,
                        "unreadThreads": 0,
                        "myRights": {
                            "mayReadItems": true,
                            "mayAddItems": false,
                            "mayRemoveItems": false,
                            "mayCreateChild": true,
                            "mayDeleteItems": false,
                            "mayRenameMailbox": true,
                            "maySubmit": true
                        },
                        "isSubscribed": true
                    },
                    {
                        "id": "mb3",
                        "name": "Drafts",
                        "parentId": null,
                        "role": "drafts",
                        "sortOrder": 2,
                        "totalEmails": 3,
                        "unreadEmails": 0,
                        "totalThreads": 3,
                        "unreadThreads": 0,
                        "myRights": {
                            "mayReadItems": true,
                            "mayAddItems": true,
                            "mayRemoveItems": true,
                            "mayCreateChild": true,
                            "mayDeleteItems": true,
                            "mayRenameMailbox": true,
                            "maySubmit": true
                        },
                        "isSubscribed": true
                    }
                ],
                "notFound": []
            },
            "c1"
        ]
    ],
    "newState": "1234"
}"#;

const EMAIL_GET_RESPONSE: &str = r#"{
    "methodResponses": [
        [
            "Email/get",
            {
                "accountId": "u12345678",
                "state": "0",
                "list": [
                    {
                        "id": "em1",
                        "blobId": "blob1",
                        "threadId": "th1",
                        "mailboxIds": { "mb1": true },
                        "keywords": { "$seen": true, "$flagged": true },
                        "from": [
                            { "name": "Alice Smith", "email": "alice@example.com" }
                        ],
                        "to": [
                            { "name": null, "email": "user@fastmail.com" }
                        ],
                        "cc": [],
                        "subject": "Meeting Tomorrow",
                        "receivedAt": "2026-08-30T14:30:00Z",
                        "size": 4521,
                        "preview": "Hi, just confirming our meeting tomorrow at 2pm."
                    },
                    {
                        "id": "em2",
                        "blobId": "blob2",
                        "threadId": "th2",
                        "mailboxIds": { "mb1": true },
                        "keywords": {},
                        "from": [
                            { "name": "Bob Jones", "email": "bob@company.org" }
                        ],
                        "to": [
                            { "name": "User", "email": "user@fastmail.com" }
                        ],
                        "cc": [
                            { "name": "Carol", "email": "carol@team.dev" }
                        ],
                        "subject": "Project Update",
                        "receivedAt": "2026-08-30T10:15:00Z",
                        "size": 12890,
                        "preview": "Here is the latest project status..."
                    }
                ],
                "notFound": []
            },
            "g1"
        ]
    ],
    "newState": "1235"
}"#;

// --- Requests ---------------------------------------------------------------

#[test]
fn request_serializes_with_since_state() {
    let req = JmapRequest {
        using: vec!["urn:ietf:params:jmap:core".into()],
        method_calls: vec![json(&read(r#"["Pong", {}, "c1"]"#))],
        since_state: Some("abc".into()),
    };
    let json = serialized(req);
    assert_eq!(json["sinceState"], "abc");
    assert_eq!(json["using"][0], "urn:ietf:params:jmap:core");
}

#[test]
fn jmap_request_mailbox_get_serializes() {
    let req = JmapRequest {
        using: vec![
            "urn:ietf:params:jmap:core".into(),
            "urn:ietf:params:jmap:mail".into(),
        ],
        method_calls: vec![json(&read(
            r#"["Mailbox/get", { "accountId": null, "ids": null }, "c1"]"#,
        ))],
        since_state: None,
    };
    let json = serialized(req);
    assert_eq!(json["using"].as_array().unwrap().len(), 2);
    let calls = json["methodCalls"].as_array().unwrap();
    assert_eq!(calls[0][0], "Mailbox/get");
}

#[test]
fn jmap_request_email_query_serializes() {
    let req = JmapRequest {
        using: vec![
            "urn:ietf:params:jmap:core".into(),
            "urn:ietf:params:jmap:mail".into(),
        ],
        method_calls: vec![
            json(&read(
                r#"[
                    "Email/query",
                    {
                        "accountId": null,
                        "filter": { "inMailbox": "mb1" },
                        "limit": 256,
                        "sort": [{ "property": "receivedAt", "isAscending": false }]
                    },
                    "q1"
                ]"#,
            )),
            json(&read(
                r##"[
                    "Email/get",
                    {
                        "accountId": null,
                        "#ids": { "resultOf": "q1", "name": "Email/query", "path": "/ids" },
                        "properties": ["id", "subject", "from", "to", "receivedAt"]
                    },
                    "g1"
                ]"##,
            )),
        ],
        since_state: Some("42".into()),
    };
    let json = serialized(req);
    assert_eq!(json["sinceState"], "42");
    let calls = json["methodCalls"].as_array().unwrap();
    assert_eq!(calls.len(), 2);
    assert_eq!(calls[0][0], "Email/query");
    assert_eq!(calls[1][0], "Email/get");
}

#[test]
fn jmap_request_with_state_omits_when_none() {
    let req = JmapRequest {
        using: vec![],
        method_calls: vec![],
        since_state: None,
    };
    let json = serialized(req);
    assert!(json.get("sinceState").is_none());
}

#[test]
fn jmap_request_batch_serializes_method_calls() {
    let req = JmapRequest {
        using: vec![
            "urn:ietf:params:jmap:core".into(),
            "urn:ietf:params:jmap:mail".into(),
        ],
        method_calls: vec![
            json(&read(r#"["Email/query", {}, "q1"]"#)),
            json(&read(r#"["Email/get", {}, "g1"]"#)),
        ],
        since_state: None,
    };
    let json = serialized(req);
    let calls = json["methodCalls"].as_array().unwrap();
    assert_eq!(calls.len(), 2);
    assert_eq!(calls[0][0], "Email/query");
    assert_eq!(calls[1][0], "Email/get");
}

#[test]
fn state_token_round_trip() {
    let state_token = "12345678";
    let req = JmapRequest {
        using: vec!["urn:ietf:params:jmap:core".into()],
        method_calls: vec![json(&read(r#"["Pong", {}, "c1"]"#))],
        since_state: Some(state_token.into()),
    };
    let serialized = serialized(req);
    assert_eq!(serialized["sinceState"].as_str().unwrap(), state_token);

    // Verify the serialized structure is correct.
    assert_eq!(
        serialized["using"][0].as_str().unwrap(),
        "urn:ietf:params:jmap:core"
    );
    let calls = serialized["methodCalls"].as_array().unwrap();
    assert_eq!(calls.len(), 1);
    assert_eq!(calls[0][0].as_str().unwrap(), "Pong");
}

#[test]
fn state_token_none_omitted_in_serialization() {
    let req = JmapRequest {
        using: vec![],
        method_calls: vec![],
        since_state: None,
    };
    let json = serialized(req);
    assert!(json.get("sinceState").is_none());
}

// --- Client -----------------------------------------------------------------

fn session() -> JmapSession {
    JmapSession {
        api_url: "https://jmap.example/api".to_string(),
        download_url: "https://jmap.example/download/{accountId}/{blobId}".to_string(),
        upload_url: "https://jmap.example/upload/{accountId}".to_string(),
        accounts: HashMap::new(),
        primary_accounts: HashMap::new(),
    }
}

fn token() -> SecretString {
    SecretString::new("SECRET".to_string())
}

fn client() -> JmapClient {
    let reply = HttpReply::Answered {
        status: 200,
        body: Ok(session()),
    };
    JmapClient::discovered(reply, &token()).unwrap()
}

#[test]
fn discovery_asks_the_well_known_url() {
    let call = JmapClient::discover("mail.example", &token());
    assert_eq!(call.url, "https://mail.example/.well-known/jmap");
    assert_eq!(call.authorization.expose(), "Bearer SECRET");
}

#[test]
fn calls_go_to_the_session_url_with_the_token() {
    let call = client().get_mailboxes();
    assert_eq!(call.url, "https://jmap.example/api");
    assert_eq!(call.authorization.expose(), "Bearer SECRET");
    assert_eq!(
        serialized(call.request),
        read(
            r#"{
                "using": ["urn:ietf:params:jmap:core", "urn:ietf:params:jmap:mail"],
                "methodCalls": [["Mailbox/get", { "accountId": null, "ids": null }, "c1"]]
            }"#
        )
    );
}

#[test]
fn query_asks_for_the_newest_messages_and_their_contents() {
    let call = client().query_emails(vec!["mb1".into(), "mb2".into()], Some("42".into()), 256);
    assert_eq!(
        serialized(call.request),
        read(
            r##"{
                "using": ["urn:ietf:params:jmap:core", "urn:ietf:params:jmap:mail"],
                "methodCalls": [
                    [
                        "Email/query",
                        {
                            "accountId": null,
                            "filter": { "inMailbox": "mb1" },
                            "limit": 256,
                            "sort": [{ "property": "receivedAt", "isAscending": false }]
                        },
                        "q1"
                    ],
                    [
                        "Email/get",
                        {
                            "accountId": null,
                            "#ids": { "resultOf": "q1", "name": "Email/query", "path": "/ids" },
                            "properties": [
                                "id", "blobId", "threadId", "mailboxIds", "from", "to", "cc",
                                "bcc", "subject", "receivedAt", "size", "keywords",
                                "header:Message-ID:asMessageIds",
                                "header:In-Reply-To:asMessageIds", "preview"
                            ]
                        },
                        "g1"
                    ]
                ],
                "sinceState": "42"
            }"##
        )
    );
    let unfiltered = serialized(client().query_emails(vec![], None, 1).request);
    assert_eq!(
        unfiltered["methodCalls"][0][1]["filter"],
        read(r#"{ "inMailbox": null }"#)
    );
}

fn transport_detail<T>(result: Result<T, SyncError>) -> String {
    match result {
        Err(SyncError::Transport { detail }) => detail,
        Err(other) => panic!("expected a transport error, got {other:?}"),
        Ok(_) => panic!("expected a transport error"),
    }
}

#[test]
fn failed_exchanges_are_transport_errors() {
    let refused = HttpReply::Answered {
        status: 401,
        body: Ok(session()),
    };
    assert_eq!(
        transport_detail(JmapClient::discovered(refused, &token())),
        "session discovery returned 401 Unauthorized"
    );
    let odd = HttpReply::Answered {
        status: 299,
        body: Err("EOF while parsing".to_string()),
    };
    assert_eq!(
        transport_detail(JmapClient::discovered(odd, &token())),
        "session parse: EOF while parsing"
    );
    assert_eq!(
        transport_detail(JmapClient::called(HttpReply::Failed("timed out".to_string()))),
        "timed out"
    );
    let moved = HttpReply::Answered {
        status: 300,
        body: Err(String::new()),
    };
    assert_eq!(
        transport_detail(JmapClient::called(moved)),
        "JMAP API returned 300 Multiple Choices"
    );
    let unknown = HttpReply::Answered {
        status: 599,
        body: Err(String::new()),
    };
    assert_eq!(
        transport_detail(JmapClient::called(unknown)),
        format!("JMAP API returned {}", reqwest::StatusCode::from_u16(599).unwrap())
    );
    let garbled = HttpReply::Answered {
        status: 200,
        body: Err("expected value".to_string()),
    };
    assert_eq!(
        transport_detail(JmapClient::called(garbled)),
        "JMAP response parse: expected value"
    );
}

#[test]
fn every_status_code_is_judged() {
    for status in 100..=999_u16 {
        let reply = HttpReply::Answered {
            status,
            body: Ok(response(r#"{ "methodResponses": [], "newState": "9" }"#)),
        };
        assert!(reply.is_valid());
        match JmapClient::called(reply) {
            Ok(r) => {
                assert!((200..300).contains(&status));
                assert_eq!(r.new_state.as_deref(), Some("9"));
            }
            Err(e) => {
                let shown = reqwest::StatusCode::from_u16(status).unwrap();
                assert!(!shown.is_success());
                assert_eq!(e.to_string(), format!("transport: JMAP API returned {shown}"));
            }
        }
    }
    let bogus: HttpReply<JmapResponse> = HttpReply::Answered {
        status: 99,
        body: Err(String::new()),
    };
    assert!(!bogus.is_valid());
}

// --- Responses ---------------------------------------------------------------

#[test]
fn parse_mailbox_get_response() {
    let resp = JmapResponse {
        method_responses: vec![json(&read(
            r#"[
                "Mailbox/get",
                {
                    "list": [
                        { "id": "mb1", "name": "INBOX", "role": "inbox" },
                        { "id": "mb2", "name": "Sent", "role": "sent" }
                    ]
                },
                "c1"
            ]"#,
        ))],
        new_state: None,
    };
    let mailboxes = parse_mailbox_get(&resp).unwrap();
    assert_eq!(mailboxes.len(), 2);
    assert_eq!(mailboxes[0].name, "INBOX");
    assert_eq!(mailboxes[0].role.as_deref(), Some("inbox"));
    assert_eq!(mailboxes[1].name, "Sent");
}

#[test]
fn parse_email_get_response() {
    let resp = JmapResponse {
        method_responses: vec![json(&read(
            r#"[
                "Email/get",
                {
                    "list": [
                        {
                            "id": "em1",
                            "subject": "Hello",
                            "from": [{ "name": "Alice", "email": "alice@example.com" }],
                            "to": [{ "email": "bob@example.com" }],
                            "receivedAt": "2025-01-15T10:30:00Z",
                            "size": 1234,
                            "keywords": { "$seen": true },
                            "mailboxIds": { "mb1": true }
                        }
                    ]
                },
                "g1"
            ]"#,
        ))],
        new_state: Some("99".into()),
    };
    let emails = parse_email_get(&resp).unwrap();
    assert_eq!(emails.len(), 1);
    assert_eq!(emails[0].subject.as_deref(), Some("Hello"));
    assert_eq!(emails[0].from[0].email, "alice@example.com");
    assert_eq!(emails[0].from[0].name.as_deref(), Some("Alice"));
    assert_eq!(emails[0].size, Some(1234));
    assert!(emails[0].keywords.contains(&"$seen".to_string()));
}

#[test]
fn parse_email_get_empty_on_no_match() {
    let resp = JmapResponse {
        method_responses: vec![json(&read(r#"["Email/query", { "total": 0 }, "q1"]"#))],
        new_state: None,
    };
    let emails = parse_email_get(&resp).unwrap();
    assert!(emails.is_empty());
}

#[test]
fn mailbox_get_response_parses_folders() {
    let resp = response(MAILBOX_GET_RESPONSE);
    assert_eq!(resp.method_responses.len(), 1);
    assert_eq!(resp.new_state.as_deref(), Some("1234"));

    let method_resp = &resp.method_responses[0];
    let arr = method_resp.as_array().unwrap();
    assert_eq!(arr[0].as_str().unwrap(), "Mailbox/get");
    let data = &arr[1];
    let list = data.get("list").unwrap().as_array().unwrap();
    assert_eq!(list.len(), 3);
    assert_eq!(list[0].get("name").unwrap().as_str().unwrap(), "INBOX");
    assert_eq!(list[0].get("role").unwrap().as_str().unwrap(), "inbox");
    assert_eq!(list[0].get("totalEmails").unwrap().as_u64().unwrap(), 42);
    assert_eq!(list[1].get("role").unwrap().as_str().unwrap(), "sent");
    assert_eq!(list[2].get("role").unwrap().as_str().unwrap(), "drafts");

    let mailboxes = parse_mailbox_get(&resp).unwrap();
    assert_eq!(mailboxes.len(), 3);
    assert_eq!(mailboxes[2].id, "mb3");
    assert_eq!(mailboxes[2].attributes(), vec!["role:drafts".to_string()]);
}

#[test]
fn mailbox_get_response_includes_rights() {
    let resp = response(MAILBOX_GET_RESPONSE);
    let method_resp = &resp.method_responses[0];
    let arr = method_resp.as_array().unwrap();
    let data = &arr[1];
    let list = data.get("list").unwrap().as_array().unwrap();
    let rights = list[0].get("myRights").unwrap();
    assert_eq!(rights.get("mayReadItems"), Some(&Json::Bool(true)));
    assert_eq!(rights.get("mayAddItems"), Some(&Json::Bool(true)));
}

#[test]
fn email_get_response_parses_messages() {
    let resp = response(EMAIL_GET_RESPONSE);
    assert_eq!(resp.method_responses.len(), 1);
    assert_eq!(resp.new_state.as_deref(), Some("1235"));

    let method_resp = &resp.method_responses[0];
    let arr = method_resp.as_array().unwrap();
    assert_eq!(arr[0].as_str().unwrap(), "Email/get");
    let data = &arr[1];
    let list = data.get("list").unwrap().as_array().unwrap();
    assert_eq!(list.len(), 2);

    let email0 = &list[0];
    assert_eq!(email0.get("id").unwrap().as_str().unwrap(), "em1");
    assert_eq!(
        email0.get("subject").unwrap().as_str().unwrap(),
        "Meeting Tomorrow"
    );
    let from = email0.get("from").unwrap().as_array().unwrap();
    assert_eq!(
        from[0].get("name").unwrap().as_str().unwrap(),
        "Alice Smith"
    );
    assert_eq!(
        from[0].get("email").unwrap().as_str().unwrap(),
        "alice@example.com"
    );
    assert_eq!(email0.get("size").unwrap().as_u64().unwrap(), 4521);
    assert_eq!(
        email0.get("receivedAt").unwrap().as_str().unwrap(),
        "2026-08-30T14:30:00Z"
    );

    let emails = parse_email_get(&resp).unwrap();
    assert_eq!(emails[0].subject.as_deref(), Some("Meeting Tomorrow"));
    assert_eq!(emails[0].to[0].name, None);
    assert_eq!(emails[1].size, Some(12890));
}

#[test]
fn email_get_response_keywords_and_mailbox_ids() {
    let resp = response(EMAIL_GET_RESPONSE);
    let method_resp = &resp.method_responses[0];
    let arr = method_resp.as_array().unwrap();
    let data = &arr[1];
    let list = data.get("list").unwrap().as_array().unwrap();

    let email0 = &list[0];
    let keywords = email0.get("keywords").unwrap().keys().unwrap();
    assert!(keywords.contains(&"$seen".to_string()));
    assert!(keywords.contains(&"$flagged".to_string()));
    let mailbox_ids = email0.get("mailboxIds").unwrap().keys().unwrap();
    assert!(mailbox_ids.contains(&"mb1".to_string()));

    let email1 = &list[1];
    let keywords = email1.get("keywords").unwrap().keys().unwrap();
    assert!(keywords.is_empty());
    let cc = email1.get("cc").unwrap().as_array().unwrap();
    assert_eq!(cc.len(), 1);
    assert_eq!(
        cc[0].get("email").unwrap().as_str().unwrap(),
        "carol@team.dev"
    );

    let emails = parse_email_get(&resp).unwrap();
    assert_eq!(emails[0].mailbox_ids, vec!["mb1".to_string()]);
    assert_eq!(emails[0].flags(), vec![Flag::Seen, Flag::Flagged]);
    assert!(emails[1].flags().is_empty());
}

fn protocol_text<T>(result: Result<T, SyncError>) -> String {
    match result {
        Err(SyncError::Protocol(what)) => what,
        Err(other) => panic!("expected a protocol error, got {other:?}"),
        Ok(_) => panic!("expected a protocol error"),
    }
}

#[test]
fn faulty_responses_are_protocol_errors() {
    let not_an_array = r#"{ "methodResponses": [["Pong"], 7] }"#;
    assert_eq!(
        protocol_text(parse_mailbox_get(&response(not_an_array))),
        "Mailbox/get: not an array"
    );
    assert_eq!(
        protocol_text(parse_email_get(&response(not_an_array))),
        "Email/get: not an array"
    );
    let no_list = r#"{ "methodResponses": [["Mailbox/get", {}], ["Email/get", { "list": 1 }]] }"#;
    assert_eq!(
        protocol_text(parse_mailbox_get(&response(no_list))),
        "Mailbox/get: missing list"
    );
    assert_eq!(
        protocol_text(parse_email_get(&response(no_list))),
        "Email/get: missing list"
    );
    let none = r#"{ "methodResponses": [["Mailbox/get"], ["Email/query", {}], [7, {}]] }"#;
    assert_eq!(
        protocol_text(parse_mailbox_get(&response(none))),
        "Mailbox/get: no method response found"
    );
    assert!(parse_email_get(&response(none)).unwrap().is_empty());
    // What follows the response that counts is not looked at.
    let after = r#"{ "methodResponses": [["Email/get", { "list": [{}] }], 7] }"#;
    let emails = parse_email_get(&response(after)).unwrap();
    assert_eq!(emails.len(), 1);
    assert_eq!(emails[0].id, "");
    assert_eq!(emails[0].subject, None);
    assert!(emails[0].from.is_empty());
    assert_eq!(emails[0].size, None);
}

#[test]
fn address_lists_skip_entries_without_an_address() {
    let list = json(&read(
        r#"[
            { "email": "a@x", "name": "A" },
            { "name": "nobody" },
            { "email": 7 },
            "b@y",
            { "email": "c@z", "name": null }
        ]"#,
    ));
    let found = parse_address_list(Some(&list));
    assert_eq!(found.len(), 2);
    assert_eq!(found[0].name.as_deref(), Some("A"));
    assert_eq!(found[0].email, "a@x");
    assert_eq!(found[1].name, None);
    assert_eq!(found[1].email, "c@z");
    assert!(parse_address_list(Some(&Json::Null)).is_empty());
    assert!(parse_address_list(None).is_empty());
}

#[test]
fn requests_carry_every_number() {
    let call = r#"["X", { "a": -7, "b": 1.5, "c": 1e300, "d": 0, "e": [18446744073709551615] }, "c1"]"#;
    let api = client().call(vec![], vec![json(&read(call)), json(&read("-1"))], None);
    let copy = api.request.method_calls[0].clone();
    assert_eq!(value(&copy), read(call));
    let sent = serialized(api.request);
    assert_eq!(sent["methodCalls"][0], read(call));
    assert_eq!(sent["methodCalls"][1], read("-1"));
}

#[test]
fn json_members_are_found_by_name() {
    let v = json(&read(r#"{ "a": 1, "b": -1, "c": 1.5, "d": 18446744073709551615 }"#));
    assert_eq!(v.get("a").unwrap().as_u64(), Some(1));
    assert_eq!(v.get("b").unwrap().as_u64(), None);
    assert_eq!(v.get("c").unwrap().as_u64(), None);
    assert_eq!(v.get("d").unwrap().as_u64(), Some(u64::MAX));
    assert!(v.get("e").is_none());
    assert!(v.as_array().is_none());
    assert!(v.as_str().is_none());
    assert!(Json::Null.get("a").is_none());
    assert!(Json::Null.keys().is_none());
    assert_eq!(v.text_at("a"), None);
}

// --- Messages ------------------------------------------------------------------

fn email(id: &str) -> ParsedEmail {
    ParsedEmail {
        id: id.into(),
        subject: None,
        from: vec![],
        to: vec![],
        received_at: None,
        size: None,
        keywords: vec![],
        mailbox_ids: vec![],
    }
}

#[test]
fn parsed_email_uid_is_deterministic() {
    let email = email("em123");
    let uid1 = email.jmap_id_hash();
    let uid2 = email.jmap_id_hash();
    assert_eq!(uid1, uid2);
    assert!(uid1 > 0);
}

#[test]
fn uids_follow_the_hash_of_the_id() {
    for id in ["", "em1", "em2", "M\u{fc}nchen", "a much longer identifier than the others"] {
        let mut h = std::collections::hash_map::DefaultHasher::new();
        String::from(id).hash(&mut h);
        let expected = u32::try_from(h.finish() % u64::from(u32::MAX) + 1).unwrap();
        assert_eq!(email(id).jmap_id_hash(), expected);
    }
    assert_ne!(email("em1").jmap_id_hash(), email("em2").jmap_id_hash());
    assert_eq!(uid_from_hash(0), 1);
    assert_eq!(uid_from_hash(u64::from(u32::MAX) - 1), u32::MAX);
    assert_eq!(uid_from_hash(u64::from(u32::MAX)), 1);
    assert_eq!(uid_from_hash(u64::MAX), 1);
}

#[test]
fn parsed_email_flags_from_keywords() {
    let email = ParsedEmail {
        keywords: vec!["$seen".into(), "$flagged".into()],
        ..email("x")
    };
    let flags = email.flags();
    assert!(flags.contains(&Flag::Seen));
    assert!(flags.contains(&Flag::Flagged));
    assert!(!flags.contains(&Flag::Answered));
}

#[test]
fn flags_come_in_a_fixed_order() {
    let email = ParsedEmail {
        keywords: vec![
            "$draft".into(),
            "$flagged".into(),
            "$junk".into(),
            "$answered".into(),
            "$draft".into(),
            "$SEEN".into(),
        ],
        ..email("x")
    };
    assert_eq!(email.flags(), vec![Flag::Answered, Flag::Flagged, Flag::Draft]);
}

#[test]
fn parse_rfc3339_to_unix_ms() {
    let ms = parse_rfc3339_ms("2025-01-15T10:30:00Z").unwrap();
    assert!(ms > 0);
}

#[test]
fn timestamps_carry_their_offset() {
    assert_eq!(parse_rfc3339_ms("1970-01-01T00:00:01.444Z"), Some(1_444));
    assert_eq!(parse_rfc3339_ms("1970-01-01T01:00:00+01:00"), Some(0));
    assert_eq!(parse_rfc3339_ms("1969-12-31T23:59:59Z"), Some(-1_000));
    assert_eq!(parse_rfc3339_ms("2025-01-15T10:30:00Z"), Some(1_736_937_000_000));
    assert_eq!(parse_rfc3339_ms("yesterday"), None);
    assert_eq!(parse_rfc3339_ms(""), None);
}

#[test]
fn received_time_falls_back_to_the_clock() {
    let clock = FakeClock::new(77);
    assert_eq!(email("x").received_at_ms(&clock), 77);
    let stated = ParsedEmail {
        received_at: Some("1970-01-01T00:00:05Z".into()),
        ..email("x")
    };
    assert_eq!(stated.received_at_ms(&clock), 5_000);
    assert_eq!(stated.received_at_or(77), 5_000);
    assert_eq!(received_time(Some(3), 4), 3);
    assert_eq!(received_time(None, 4), 4);
    let garbled = ParsedEmail {
        received_at: Some("soon".into()),
        ..email("x")
    };
    assert_eq!(garbled.received_at_ms(&clock), 77);
    assert_eq!(garbled.received_at_or(78), 78);
    assert_eq!(garbled.stated_at_ms(), None);
}

#[test]
fn email_header_view_carries_addresses_and_uid() {
    let email = ParsedEmail {
        subject: Some("Sub".into()),
        from: vec![ParsedAddress {
            name: Some("A".into()),
            email: "a@x".into(),
        }],
        to: vec![ParsedAddress {
            name: None,
            email: "b@y".into(),
        }],
        ..email("em9")
    };
    let head = email.to_header(7);
    assert!(head.contains("From: A <a@x>\r\n"));
    assert!(head.contains("To: b@y\r\n"));
    assert!(head.contains("Subject: Sub\r\n"));
    assert!(head.contains("X-Sync-UID: 7\r\n"));
}

#[test]
fn header_view_is_exact() {
    let email = ParsedEmail {
        from: vec![
            ParsedAddress {
                name: Some("".into()),
                email: "a@x".into(),
            },
            ParsedAddress {
                name: Some("B".into()),
                email: "b@y".into(),
            },
        ],
        ..email("em9")
    };
    assert_eq!(
        email.to_header(u32::MAX),
        "From: a@x, B <b@y>\r\nTo: \r\nSubject: \r\nX-Sync-UID: 4294967295\r\n\r\n"
    );
}

#[test]
fn batches_store_one_message_each() {
    let folder = FolderId::from_uuid(7);
    let resp = response(EMAIL_GET_RESPONSE);
    let mut emails = parse_email_get(&resp).unwrap();
    emails.push(email("bare"));
    let parse = |head: &[u8]| head.to_vec();
    let batch = ingest_batch(folder, &emails, &parse, &FakeClock::new(5));
    assert_eq!(batch.messages.len(), 3);
    for (message, email) in batch.messages.iter().zip(&emails) {
        let uid = email.jmap_id_hash();
        assert_eq!(message.folder, folder);
        assert_eq!(message.uid, uid);
        assert_eq!(message.parsed, email.to_header(uid).into_bytes());
        assert_eq!(message.flags, email.flags());
        assert_eq!(message.raw_blob, None);
        assert_eq!(message.raw_size, email.size.unwrap_or(0));
    }
    assert_eq!(
        batch.messages[0].internal_date,
        parse_rfc3339_ms("2026-08-30T14:30:00Z").unwrap()
    );
    assert_eq!(batch.messages[2].internal_date, 5);
}

// --- Folder roles ---------------------------------------------------------------

#[test]
fn role_from_jmap_names() {
    assert_eq!(role_from_jmap("INBOX"), Some(FolderRole::Inbox));
    assert_eq!(role_from_jmap("Sent"), Some(FolderRole::Sent));
    assert_eq!(role_from_jmap("Drafts"), Some(FolderRole::Drafts));
    assert_eq!(role_from_jmap("Trash"), Some(FolderRole::Trash));
    assert_eq!(role_from_jmap("Junk"), Some(FolderRole::Junk));
    assert_eq!(role_from_jmap("Archive"), Some(FolderRole::Archive));
    assert_eq!(role_from_jmap("Custom Folder"), None);
}

#[test]
fn roles_follow_the_last_segment() {
    assert_eq!(role_from_jmap(""), Some(FolderRole::Inbox));
    assert_eq!(role_from_jmap(" \x1b\t"), Some(FolderRole::Inbox));
    assert_eq!(role_from_jmap("INBOX/"), None);
    assert_eq!(role_from_jmap("Work/Old.Sent Messages (2)"), Some(FolderRole::Sent));
    assert_eq!(role_from_jmap("sent items"), None);
    assert_eq!(role_from_jmap("a.b/Deleted Messages "), Some(FolderRole::Trash));
    assert_eq!(role_from_jmap("SPAM\u{3000}"), Some(FolderRole::Junk));
    assert_eq!(role_from_jmap("[Gmail]/All Mail"), Some(FolderRole::Archive));
    assert_eq!(role_from_jmap("tra\u{1}sh"), None);
    // The Kelvin sign is a capital whose small letter is `k`.
    assert_eq!(role_from_jmap("Jun\u{212a}"), Some(FolderRole::Junk));
    for leaf in ["Sent", "tRaSh", "Custom Folder"] {
        let role = role_from_jmap(leaf);
        assert_eq!(role_from_jmap(&format!("a.b/{leaf}")), role);
        assert_eq!(role_from_jmap(&format!("a/b.{leaf}")), role);
        assert_eq!(role_from_jmap(&format!("/{}", leaf.to_uppercase())), role);
        assert_eq!(role_from_jmap(&format!("{leaf} \t \u{b}")), role);
        assert_eq!(role_from_jmap(&format!("\x1b{}\x1b{}\x1b", &leaf[..2], &leaf[2..])), role);
    }
    // The same holds of names that are not ASCII.
    for leaf in ["Sent", "Jun\u{212a}", "\u{3a3}\u{3a3}", "sent messages \u{3a3}"] {
        let role = role_from_jmap(leaf);
        for parent in ["\u{391}\u{3a3}", "\u{130}", "M\u{dc}LL"] {
            assert_eq!(role_from_jmap(&format!("{parent}/{leaf}")), role);
            assert_eq!(role_from_jmap(&format!("{parent}.{leaf}")), role);
            // Lower-casing the whole name first gives the same role.
            let whole = format!("{parent}.{leaf}").to_lowercase();
            assert_eq!(role_of_segment(whole.rsplit(['/', '.']).next().unwrap()), role);
        }
        assert_eq!(role_from_jmap(&leaf.to_ascii_uppercase()), role);
        assert_eq!(role_from_jmap(&leaf.to_ascii_lowercase()), role);
    }
    assert_eq!(role_of_segment("drafts"), Some(FolderRole::Drafts));
    assert_eq!(role_of_segment("DRAFTS"), None);
    assert_eq!(role_of_segment(""), None);
}

#[test]
fn mailboxes_without_a_role_have_no_attributes() {
    let mailbox = ParsedMailbox {
        name: "x".into(),
        role: None,
        id: "mb".into(),
    };
    assert!(mailbox.attributes().is_empty());
}
