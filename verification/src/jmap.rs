//! JMAP transport (RFC 8620/8621): session discovery, `Email/query` +
//! `Email/get`, `Mailbox/get`. State tokens map to the sync engine's cursor
//! model.
//!
//! The client describes each HTTPS exchange as a plain value and judges the
//! reply; performing the exchange is left to the caller.

use std::collections::HashMap;

use vstd::prelude::*;
use vstd::string::StringExecFns;

use crate::error::{prefixed, SyncError, SyncErrorView, SyncResult};
use crate::json::{
    json_views, member_named, member_views, push_item, put, text_array, Json, JsonView,
};
use crate::secrets::SecretString;
use crate::text::{decimal, opt_view, views};

verus! {

/// JMAP session resource (subset of RFC 8620 §3).
#[derive(Clone, Debug)]
pub struct JmapSession {
    /// API URL for method calls.
    pub api_url: String,
    /// Download URL template (for blobs).
    pub download_url: String,
    /// Upload URL.
    pub upload_url: String,
    /// Primary accounts map.
    pub accounts: HashMap<String, JmapAccount>,
    /// Primary accounts (accountId → capability URN).
    pub primary_accounts: HashMap<String, String>,
}

/// Per-account JMAP capability data.
#[derive(Clone, Debug)]
pub struct JmapAccount {
    /// Account name.
    pub name: String,
    /// Whether the account is read-only.
    pub is_read_only: bool,
    /// Mail capability (RFC 8621).
    pub mail: Option<JmapMailCapability>,
}

/// Mail capability (RFC 8621 §2).
#[derive(Clone, Debug)]
pub struct JmapMailCapability {
    /// Maximum mailbox name length in octets.
    pub max_mailbox_name_length: Option<u64>,
}

/// A JMAP request (RFC 8620 §3.3).
#[derive(Debug)]
pub struct JmapRequest {
    /// Capability URNs the client uses.
    pub using: Vec<String>,
    /// Method calls to execute.
    pub method_calls: Vec<Json>,
    /// State token for delta requests.
    pub since_state: Option<String>,
}

/// A JMAP response (RFC 8620 §3.4).
#[derive(Clone, Debug)]
pub struct JmapResponse {
    /// Method responses, in order.
    pub method_responses: Vec<Json>,
    /// New state token.
    pub new_state: Option<String>,
}

/// The JSON form of a request; an absent state token is left out.
pub open spec fn request_json(
    using: Seq<Seq<char>>,
    calls: Seq<JsonView>,
    since_state: Option<Seq<char>>,
) -> JsonView {
    let base = seq![("using"@, text_array(using)), ("methodCalls"@, JsonView::Array(calls))];
    JsonView::Object(
        match since_state {
            Some(state) => base.push(("sinceState"@, JsonView::Text(state))),
            None => base,
        },
    )
}

impl JmapRequest {
    /// The JSON form sent over the wire.
    #[must_use]
    pub fn into_json(self) -> (r: Json)
        ensures
            r@ == request_json(
                views(self.using@),
                json_views(self.method_calls@),
                opt_view(self.since_state),
            ),
    {
        let JmapRequest { using, method_calls, since_state } = self;
        let ghost wire = request_json(
            views(using@),
            json_views(method_calls@),
            opt_view(since_state),
        );
        let mut members = no_members();
        put(&mut members, "using", Json::texts(&using));
        put(&mut members, "methodCalls", Json::array(method_calls));
        match since_state {
            Some(state) => {
                put(&mut members, "sinceState", Json::Text(state));
            },
            None => {},
        }
        assert(member_views(members@) =~= wire->Object_0);
        Json::object(members)
    }
}

// ---------------------------------------------------------------------------
// Method calls
// ---------------------------------------------------------------------------

/// The capabilities that every call uses.
pub open spec fn mail_capabilities() -> Seq<Seq<char>> {
    seq!["urn:ietf:params:jmap:core"@, "urn:ietf:params:jmap:mail"@]
}

/// The capabilities that every call uses.
fn capabilities() -> (r: Vec<String>)
    ensures
        views(r@) == mail_capabilities(),
{
    let mut out: Vec<String> = Vec::new();
    out.push("urn:ietf:params:jmap:core".to_string());
    out.push("urn:ietf:params:jmap:mail".to_string());
    assert(views(out@) =~= mail_capabilities());
    out
}

/// A method call: name, arguments, call id.
pub open spec fn method_call(
    name: Seq<char>,
    arguments: Seq<(Seq<char>, JsonView)>,
    call_id: Seq<char>,
) -> JsonView {
    JsonView::Array(
        seq![JsonView::Text(name), JsonView::Object(arguments), JsonView::Text(call_id)],
    )
}

/// `Mailbox/get` for every mailbox of the primary account.
pub open spec fn mailbox_get_call() -> JsonView {
    method_call(
        "Mailbox/get"@,
        seq![("accountId"@, JsonView::Null), ("ids"@, JsonView::Null)],
        "c1"@,
    )
}

/// A filter for the messages in `mailbox`.
pub open spec fn mailbox_filter(mailbox: Option<Seq<char>>) -> JsonView {
    let id = match mailbox {
        Some(id) => JsonView::Text(id),
        None => JsonView::Null,
    };
    JsonView::Object(seq![("inMailbox"@, id)])
}

/// Newest messages first.
pub open spec fn newest_first() -> JsonView {
    JsonView::Object(
        seq![
            ("property"@, JsonView::Text("receivedAt"@)),
            ("isAscending"@, JsonView::Bool(false)),
        ],
    )
}

/// `Email/query` for the newest messages of a mailbox.
pub open spec fn email_query_call(mailbox: Option<Seq<char>>, limit: u32) -> JsonView {
    method_call(
        "Email/query"@,
        seq![
            ("accountId"@, JsonView::Null),
            ("filter"@, mailbox_filter(mailbox)),
            ("limit"@, JsonView::Unsigned(limit as u64)),
            ("sort"@, JsonView::Array(seq![newest_first()])),
        ],
        "q1"@,
    )
}

/// The message properties that `Email/get` asks for.
pub open spec fn email_properties() -> Seq<Seq<char>> {
    seq![
        "id"@,
        "blobId"@,
        "threadId"@,
        "mailboxIds"@,
        "from"@,
        "to"@,
        "cc"@,
        "bcc"@,
        "subject"@,
        "receivedAt"@,
        "size"@,
        "keywords"@,
        "header:Message-ID:asMessageIds"@,
        "header:In-Reply-To:asMessageIds"@,
        "preview"@,
    ]
}

/// A reference to the ids that the query `q1` of the same request found.
pub open spec fn queried_ids() -> JsonView {
    JsonView::Object(
        seq![
            ("resultOf"@, JsonView::Text("q1"@)),
            ("name"@, JsonView::Text("Email/query"@)),
            ("path"@, JsonView::Text("/ids"@)),
        ],
    )
}

/// `Email/get` for the messages that the query found.
pub open spec fn email_get_call() -> JsonView {
    method_call(
        "Email/get"@,
        seq![
            ("accountId"@, JsonView::Null),
            ("#ids"@, queried_ids()),
            ("properties"@, text_array(email_properties())),
        ],
        "g1"@,
    )
}

/// The arguments of a method call.
spec fn arguments_of(call: JsonView) -> Seq<(Seq<char>, JsonView)> {
    call->Array_0[1]->Object_0
}

/// A method call: name, arguments, call id.
fn build_call(name: &str, arguments: Vec<(String, Json)>, call_id: &str) -> (r: Json)
    ensures
        r@ == method_call(name@, member_views(arguments@), call_id@),
{
    let mut items: Vec<Json> = Vec::new();
    assert(json_views(items@) =~= Seq::empty());
    push_item(&mut items, Json::text(name));
    push_item(&mut items, Json::object(arguments));
    push_item(&mut items, Json::text(call_id));
    assert(json_views(items@) =~= method_call(name@, member_views(arguments@), call_id@)->Array_0);
    Json::array(items)
}

/// An object under construction, without members yet.
fn no_members() -> (r: Vec<(String, Json)>)
    ensures
        member_views(r@) == Seq::<(Seq<char>, JsonView)>::empty(),
{
    let r: Vec<(String, Json)> = Vec::new();
    assert(member_views(r@) =~= Seq::empty());
    r
}

/// The message properties that `Email/get` asks for.
fn properties() -> (r: Vec<String>)
    ensures
        views(r@) == email_properties(),
{
    let mut out: Vec<String> = Vec::new();
    out.push("id".to_string());
    out.push("blobId".to_string());
    out.push("threadId".to_string());
    out.push("mailboxIds".to_string());
    out.push("from".to_string());
    out.push("to".to_string());
    out.push("cc".to_string());
    out.push("bcc".to_string());
    out.push("subject".to_string());
    out.push("receivedAt".to_string());
    out.push("size".to_string());
    out.push("keywords".to_string());
    out.push("header:Message-ID:asMessageIds".to_string());
    out.push("header:In-Reply-To:asMessageIds".to_string());
    out.push("preview".to_string());
    assert(views(out@) =~= email_properties());
    out
}

fn build_mailbox_get() -> (r: Json)
    ensures
        r@ == mailbox_get_call(),
{
    let mut arguments = no_members();
    put(&mut arguments, "accountId", Json::Null);
    put(&mut arguments, "ids", Json::Null);
    assert(member_views(arguments@) =~= arguments_of(mailbox_get_call()));
    build_call("Mailbox/get", arguments, "c1")
}

fn build_email_query(mailbox: Option<&String>, limit: u32) -> (r: Json)
    ensures
        r@ == email_query_call(
            match mailbox {
                Some(id) => Some(id@),
                None => None,
            },
            limit,
        ),
{
    let ghost wanted = match mailbox {
        Some(id) => Some(id@),
        None => None,
    };
    let mut filter = no_members();
    let in_mailbox = match mailbox {
        Some(id) => Json::text(id.as_str()),
        None => Json::Null,
    };
    put(&mut filter, "inMailbox", in_mailbox);
    assert(member_views(filter@) =~= mailbox_filter(wanted)->Object_0);
    let mut order = no_members();
    put(&mut order, "property", Json::text("receivedAt"));
    put(&mut order, "isAscending", Json::Bool(false));
    assert(member_views(order@) =~= newest_first()->Object_0);
    let mut sort: Vec<Json> = Vec::new();
    assert(json_views(sort@) =~= Seq::empty());
    push_item(&mut sort, Json::object(order));
    assert(json_views(sort@) =~= seq![newest_first()]);
    let mut arguments = no_members();
    put(&mut arguments, "accountId", Json::Null);
    put(&mut arguments, "filter", Json::object(filter));
    put(&mut arguments, "limit", Json::Unsigned(limit as u64));
    put(&mut arguments, "sort", Json::array(sort));
    assert(member_views(arguments@) =~= arguments_of(email_query_call(wanted, limit)));
    build_call("Email/query", arguments, "q1")
}

fn build_email_get() -> (r: Json)
    ensures
        r@ == email_get_call(),
{
    let mut ids = no_members();
    put(&mut ids, "resultOf", Json::text("q1"));
    put(&mut ids, "name", Json::text("Email/query"));
    put(&mut ids, "path", Json::text("/ids"));
    assert(member_views(ids@) =~= queried_ids()->Object_0);
    let mut arguments = no_members();
    put(&mut arguments, "accountId", Json::Null);
    put(&mut arguments, "#ids", Json::object(ids));
    put(&mut arguments, "properties", Json::texts(&properties()));
    assert(member_views(arguments@) =~= arguments_of(email_get_call()));
    build_call("Email/get", arguments, "g1")
}

// ---------------------------------------------------------------------------
// Client
// ---------------------------------------------------------------------------

/// A session discovery: `GET url` with the `Authorization` header given.
#[derive(Debug)]
pub struct DiscoveryCall {
    /// Where to send the request.
    pub url: String,
    /// The `Authorization` header.
    pub authorization: SecretString,
}

/// A JMAP API call: `POST url` with the `Authorization` header and JSON body
/// given.
#[derive(Debug)]
pub struct ApiCall {
    /// Where to send the request.
    pub url: String,
    /// The `Authorization` header.
    pub authorization: SecretString,
    /// The body.
    pub request: JmapRequest,
}

/// How an HTTP exchange ended.
#[derive(Debug)]
pub enum HttpReply<T> {
    /// No answer: what went wrong.
    Failed(String),
    /// An answer: its status code and its decoded body, or what went wrong in
    /// decoding it. The body counts only under a success status.
    Answered {
        /// HTTP status code.
        status: u16,
        /// The decoded body.
        body: Result<T, String>,
    },
}

impl<T> HttpReply<T> {
    /// Whether the status code, if any, has the three digits that HTTP gives
    /// it.
    pub open spec fn valid(self) -> bool {
        self matches HttpReply::Answered { status, .. } ==> 100 <= status <= 999
    }

    /// Whether the status code, if any, has three digits.
    #[must_use]
    pub fn is_valid(&self) -> (r: bool)
        ensures
            r == self.valid(),
    {
        match self {
            HttpReply::Failed(_) => true,
            HttpReply::Answered { status, .. } => 100 <= *status && *status <= 999,
        }
    }
}

/// The reason phrase with which an HTTP status code is displayed.
pub uninterp spec fn status_reason(code: u16) -> Seq<char>;

/// `reqwest::StatusCode`, displayed: the code, a space, and a reason phrase
/// that depends on the code alone. The conversion from a number fails outside
/// 100 to 999.
#[verifier::external_body]
fn status_text(code: u16) -> (r: String)
    requires
        100 <= code <= 999,
    ensures
        r@ == decimal(code as nat) + " "@ + status_reason(code),
{
    reqwest::StatusCode::from_u16(code).unwrap().to_string()
}

/// What an HTTP exchange yields: the body under a success status (200 to
/// 299), a transport error otherwise. `refused` and `undecoded` begin the
/// error texts for another status and for an unreadable body.
pub open spec fn exchange_error<T>(
    reply: HttpReply<T>,
    refused: Seq<char>,
    undecoded: Seq<char>,
) -> Option<SyncErrorView> {
    match reply {
        HttpReply::Failed(what) => Some(SyncErrorView::Transport { detail: what@ }),
        HttpReply::Answered { status, body } => if !(200 <= status < 300) {
            Some(
                SyncErrorView::Transport {
                    detail: refused + decimal(status as nat) + " "@ + status_reason(status),
                },
            )
        } else {
            match body {
                Ok(_) => None,
                Err(what) => Some(SyncErrorView::Transport { detail: undecoded + what@ }),
            }
        },
    }
}

/// What an HTTP exchange yields.
fn judge<T>(reply: HttpReply<T>, refused: &str, undecoded: &str) -> (r: SyncResult<T>)
    requires
        reply.valid(),
    ensures
        r matches Ok(value) ==> exchange_error(reply, refused@, undecoded@) is None
            && reply->body == Ok::<T, String>(value),
        r matches Err(e) ==> exchange_error(reply, refused@, undecoded@) == Some(e@),
{
    match reply {
        HttpReply::Failed(detail) => Err(SyncError::Transport { detail }),
        HttpReply::Answered { status, body } => {
            if !(200 <= status && status < 300) {
                let detail = prefixed(refused, status_text(status).as_str());
                assert(detail@ =~= refused@ + decimal(status as nat) + " "@ + status_reason(
                    status,
                ));
                return Err(SyncError::Transport { detail });
            }
            match body {
                Ok(value) => Ok(value),
                Err(what) => Err(
                    SyncError::Transport { detail: prefixed(undecoded, what.as_str()) },
                ),
            }
        },
    }
}

/// JMAP client: where its account's API lives and how it authenticates.
pub struct JmapClient {
    api_url: String,
    auth_header: SecretString,
}

/// The `Authorization` header for a bearer token.
pub open spec fn bearer(token: Seq<char>) -> Seq<char> {
    "Bearer "@ + token
}

impl JmapClient {
    /// API URL for method calls.
    pub closed spec fn spec_api_url(self) -> Seq<char> {
        self.api_url@
    }

    /// The `Authorization` header of every call.
    pub closed spec fn spec_auth_header(self) -> Seq<char> {
        self.auth_header@
    }

    /// The request that discovers the session via `/.well-known/jmap` on the
    /// account host.
    #[must_use]
    pub fn discover(host: &str, token: &SecretString) -> (r: DiscoveryCall)
        ensures
            r.url@ == "https://"@ + host@ + "/.well-known/jmap"@,
            r.authorization@ == bearer(token@),
    {
        let mut url = prefixed("https://", host);
        url.append("/.well-known/jmap");
        DiscoveryCall {
            url,
            authorization: SecretString::new(prefixed("Bearer ", token.expose())),
        }
    }

    /// The client for a discovered session.
    ///
    /// # Errors
    /// [`SyncError::Transport`] on HTTP failures or session parse errors.
    pub fn discovered(reply: HttpReply<JmapSession>, token: &SecretString) -> (r: SyncResult<Self>)
        requires
            reply.valid(),
        ensures
            r matches Ok(client) ==> {
                &&& exchange_error(reply, "session discovery returned "@, "session parse: "@)
                    is None
                &&& client.spec_api_url() == (reply->body->Ok_0).api_url@
                &&& client.spec_auth_header() == bearer(token@)
            },
            r matches Err(e) ==> exchange_error(
                reply,
                "session discovery returned "@,
                "session parse: "@,
            ) == Some(e@),
    {
        match judge(reply, "session discovery returned ", "session parse: ") {
            Ok(session) => Ok(
                Self {
                    api_url: session.api_url,
                    auth_header: SecretString::new(prefixed("Bearer ", token.expose())),
                },
            ),
            Err(e) => Err(e),
        }
    }

    /// The request for a batch of method calls.
    #[must_use]
    pub fn call(
        &self,
        using: Vec<String>,
        method_calls: Vec<Json>,
        since_state: Option<String>,
    ) -> (r: ApiCall)
        ensures
            r.url@ == self.spec_api_url(),
            r.authorization@ == self.spec_auth_header(),
            r.request == (JmapRequest { using, method_calls, since_state }),
    {
        ApiCall {
            url: self.api_url.clone(),
            authorization: self.auth_header.clone(),
            request: JmapRequest { using, method_calls, since_state },
        }
    }

    /// The response to a batch of method calls.
    ///
    /// # Errors
    /// [`SyncError::Transport`] on transport failures.
    pub fn called(reply: HttpReply<JmapResponse>) -> (r: SyncResult<JmapResponse>)
        requires
            reply.valid(),
        ensures
            r matches Ok(response) ==> exchange_error(
                reply,
                "JMAP API returned "@,
                "JMAP response parse: "@,
            ) is None && reply->body == Ok::<JmapResponse, String>(response),
            r matches Err(e) ==> exchange_error(
                reply,
                "JMAP API returned "@,
                "JMAP response parse: "@,
            ) == Some(e@),
    {
        judge(reply, "JMAP API returned ", "JMAP response parse: ")
    }

    /// `Mailbox/get`: asks for the folder hierarchy (RFC 8621 §2).
    #[must_use]
    pub fn get_mailboxes(&self) -> (r: ApiCall)
        ensures
            r.url@ == self.spec_api_url(),
            r.authorization@ == self.spec_auth_header(),
            views(r.request.using@) == mail_capabilities(),
            json_views(r.request.method_calls@) == seq![mailbox_get_call()],
            r.request.since_state is None,
    {
        let mut calls: Vec<Json> = Vec::new();
        assert(json_views(calls@) =~= Seq::empty());
        push_item(&mut calls, build_mailbox_get());
        self.call(capabilities(), calls, None)
    }

    /// `Email/query` + `Email/get`: asks for messages (RFC 8621 §3/4) of the
    /// first of the given mailboxes.
    #[must_use]
    pub fn query_emails(
        &self,
        mailbox_ids: Vec<String>,
        since_state: Option<String>,
        limit: u32,
    ) -> (r: ApiCall)
        ensures
            r.url@ == self.spec_api_url(),
            r.authorization@ == self.spec_auth_header(),
            views(r.request.using@) == mail_capabilities(),
            json_views(r.request.method_calls@) == seq![
                email_query_call(
                    if mailbox_ids@.len() > 0 {
                        Some(mailbox_ids@[0]@)
                    } else {
                        None
                    },
                    limit,
                ),
                email_get_call(),
            ],
            r.request.since_state == since_state,
    {
        let mut calls: Vec<Json> = Vec::new();
        assert(json_views(calls@) =~= Seq::empty());
        let first = if mailbox_ids.len() > 0 {
            Some(&mailbox_ids[0])
        } else {
            None
        };
        push_item(&mut calls, build_email_query(first, limit));
        push_item(&mut calls, build_email_get());
        self.call(capabilities(), calls, since_state)
    }
}

/// A request carries its method calls in order and its state token as given;
/// without a token it has no `sinceState` member.
pub proof fn law_request_carries_its_calls_and_token(
    using: Seq<Seq<char>>,
    calls: Seq<JsonView>,
    since_state: Option<Seq<char>>,
)
    ensures
        ({
            let wire = request_json(using, calls, since_state);
            &&& wire.get("using"@) == Some(text_array(using))
            &&& wire.get("methodCalls"@) == Some(JsonView::Array(calls))
            &&& match since_state {
                Some(token) => wire.get("sinceState"@) == Some(JsonView::Text(token)),
                None => wire.get("sinceState"@) is None,
            }
            &&& wire matches JsonView::Object(members) && members.len() == if since_state is Some {
                3nat
            } else {
                2nat
            }
        }),
{
    let wire = request_json(using, calls, since_state);
    let members = wire->Object_0;
    reveal_strlit("using");
    reveal_strlit("methodCalls");
    reveal_strlit("sinceState");
    assert("using"@[0] == 'u' && "methodCalls"@[0] == 'm' && "sinceState"@[0] == 's');
    reveal_with_fuel(member_named, 4);
    assert(members[0].0 == "using"@ && members[1].0 == "methodCalls"@);
    assert(members.skip(1)[0] == members[1]);
    if since_state is Some {
        assert(members.skip(1).skip(1)[0] == members[2]);
    } else {
        assert(members.skip(1).skip(1).len() == 0);
    }
}

/// A query asks for one mailbox by its id, or for any, and for at most as
/// many messages as the limit says, newest first.
pub proof fn law_query_names_mailbox_and_limit(mailbox: Option<Seq<char>>, limit: u32)
    ensures
        email_query_call(mailbox, limit) matches JsonView::Array(parts) && {
            &&& parts.len() == 3
            &&& parts[0] == JsonView::Text("Email/query"@)
            &&& parts[1] matches JsonView::Object(arguments) && arguments.len() == 4
            &&& parts[2] == JsonView::Text("q1"@)
            &&& parts[1].get("accountId"@) == Some(JsonView::Null)
            &&& parts[1].get("limit"@) == Some(JsonView::Unsigned(limit as u64))
            &&& parts[1].get("filter"@) matches Some(filter) && filter.get("inMailbox"@) == Some(
                match mailbox {
                    Some(id) => JsonView::Text(id),
                    None => JsonView::Null,
                },
            )
            &&& parts[1].get("sort"@) matches Some(JsonView::Array(order)) && {
                &&& order.len() == 1
                &&& order[0].get("property"@) == Some(JsonView::Text("receivedAt"@))
                &&& order[0].get("isAscending"@) == Some(JsonView::Bool(false))
            }
        },
{
    let arguments = arguments_of(email_query_call(mailbox, limit));
    reveal_strlit("accountId");
    reveal_strlit("filter");
    reveal_strlit("limit");
    reveal_strlit("sort");
    reveal_strlit("property");
    reveal_strlit("isAscending");
    assert("accountId"@[0] == 'a' && "filter"@[0] == 'f' && "limit"@[0] == 'l' && "sort"@[0]
        == 's' && "property"@[0] == 'p' && "isAscending"@[0] == 'i');
    reveal_with_fuel(member_named, 5);
    assert(arguments[0].0 == "accountId"@);
    assert(arguments.skip(1)[0] == arguments[1]);
    assert(arguments.skip(1).skip(1)[0] == arguments[2]);
    assert(arguments.skip(1).skip(1).skip(1)[0] == arguments[3]);
    let order = newest_first()->Object_0;
    assert(order[0].0 == "property"@);
    assert(order.skip(1)[0] == order[1]);
    assert(mailbox_filter(mailbox)->Object_0[0].0 == "inMailbox"@);
}

/// `Email/get` takes its ids from the query of the same request, named by its
/// method and call id, and asks for every property that is read from the
/// answer.
pub proof fn law_get_takes_what_the_query_found(mailbox: Option<Seq<char>>, limit: u32)
    ensures
        email_query_call(mailbox, limit) matches JsonView::Array(query) && email_get_call() matches
            JsonView::Array(parts) && {
            &&& parts.len() == 3
            &&& parts[0] == JsonView::Text("Email/get"@)
            &&& parts[1] matches JsonView::Object(arguments) && arguments.len() == 3
            &&& parts[2] == JsonView::Text("g1"@)
            &&& parts[2] != query[2]
            &&& parts[1].get("accountId"@) == Some(JsonView::Null)
            &&& parts[1].get("#ids"@) matches Some(ids) && {
                &&& ids.get("resultOf"@) == Some(query[2])
                &&& ids.get("name"@) == Some(query[0])
                &&& ids.get("path"@) == Some(JsonView::Text("/ids"@))
            }
            &&& parts[1].get("properties"@) matches Some(JsonView::Array(asked)) && {
                &&& asked.len() == 15
                &&& asked.contains(JsonView::Text("id"@))
                &&& asked.contains(JsonView::Text("subject"@))
                &&& asked.contains(JsonView::Text("from"@))
                &&& asked.contains(JsonView::Text("to"@))
                &&& asked.contains(JsonView::Text("receivedAt"@))
                &&& asked.contains(JsonView::Text("size"@))
                &&& asked.contains(JsonView::Text("keywords"@))
                &&& asked.contains(JsonView::Text("mailboxIds"@))
                &&& asked.contains(JsonView::Text("blobId"@))
                &&& asked.contains(JsonView::Text("threadId"@))
                &&& asked.contains(JsonView::Text("cc"@))
                &&& asked.contains(JsonView::Text("bcc"@))
                &&& asked.contains(JsonView::Text("header:Message-ID:asMessageIds"@))
                &&& asked.contains(JsonView::Text("header:In-Reply-To:asMessageIds"@))
                &&& asked.contains(JsonView::Text("preview"@))
            }
        },
{
    let arguments = arguments_of(email_get_call());
    let ids = queried_ids()->Object_0;
    reveal_strlit("accountId");
    reveal_strlit("#ids");
    reveal_strlit("properties");
    reveal_strlit("resultOf");
    reveal_strlit("name");
    reveal_strlit("path");
    reveal_strlit("q1");
    reveal_strlit("g1");
    assert("accountId"@[0] == 'a' && "#ids"@[0] == '#' && "properties"@[0] == 'p');
    assert("resultOf"@[0] == 'r' && "name"@[0] == 'n' && "path"@[0] == 'p');
    assert("q1"@[0] == 'q' && "g1"@[0] == 'g');
    reveal_with_fuel(member_named, 4);
    assert(arguments[0].0 == "accountId"@);
    assert(arguments.skip(1)[0] == arguments[1]);
    assert(arguments.skip(1).skip(1)[0] == arguments[2]);
    assert(ids[0].0 == "resultOf"@);
    assert(ids.skip(1)[0] == ids[1]);
    assert(ids.skip(1).skip(1)[0] == ids[2]);
    let asked = text_array(email_properties())->Array_0;
    assert(asked[0] == JsonView::Text("id"@));
    assert(asked[1] == JsonView::Text("blobId"@));
    assert(asked[2] == JsonView::Text("threadId"@));
    assert(asked[3] == JsonView::Text("mailboxIds"@));
    assert(asked[6] == JsonView::Text("cc"@));
    assert(asked[7] == JsonView::Text("bcc"@));
    assert(asked[4] == JsonView::Text("from"@));
    assert(asked[5] == JsonView::Text("to"@));
    assert(asked[8] == JsonView::Text("subject"@));
    assert(asked[9] == JsonView::Text("receivedAt"@));
    assert(asked[10] == JsonView::Text("size"@));
    assert(asked[11] == JsonView::Text("keywords"@));
    assert(asked[12] == JsonView::Text("header:Message-ID:asMessageIds"@));
    assert(asked[13] == JsonView::Text("header:In-Reply-To:asMessageIds"@));
    assert(asked[14] == JsonView::Text("preview"@));
}

/// `Mailbox/get` asks for all mailboxes of the primary account.
pub proof fn law_mailbox_get_asks_for_all()
    ensures
        mailbox_get_call() matches JsonView::Array(parts) && {
            &&& parts.len() == 3
            &&& parts[0] == JsonView::Text("Mailbox/get"@)
            &&& parts[1] matches JsonView::Object(arguments) && arguments.len() == 2
            &&& parts[2] == JsonView::Text("c1"@)
            &&& parts[1].get("accountId"@) == Some(JsonView::Null)
            &&& parts[1].get("ids"@) == Some(JsonView::Null)
        },
{
    let arguments = arguments_of(mailbox_get_call());
    reveal_strlit("accountId");
    reveal_strlit("ids");
    assert("accountId"@[0] == 'a' && "ids"@[0] == 'i');
    reveal_with_fuel(member_named, 3);
    assert(arguments[0].0 == "accountId"@);
    assert(arguments.skip(1)[0] == arguments[1]);
}

/// An exchange yields its body exactly where it was answered with a status
/// from 200 to 299 and a body that could be read. Otherwise it yields a
/// transport error that tells what went wrong: the failure itself, the
/// refusing status, or the fault in the body.
pub proof fn law_exchange_succeeds_on_2xx_with_a_body<T>(
    status: u16,
    body: Result<T, String>,
    what: String,
    refused: Seq<char>,
    undecoded: Seq<char>,
)
    ensures
        exchange_error(HttpReply::<T>::Failed(what), refused, undecoded) == Some(
            SyncErrorView::Transport { detail: what@ },
        ),
        ({
            let error = exchange_error(HttpReply::Answered { status, body }, refused, undecoded);
            &&& (error is None <==> status / 100 == 2 && body is Ok)
            &&& status / 100 != 2 ==> (error matches Some(SyncErrorView::Transport { detail })
                && detail == refused + (decimal(status as nat) + " "@ + status_reason(status)))
            &&& status / 100 == 2 ==> (body matches Err(fault) ==> error == Some(
                SyncErrorView::Transport { detail: undecoded + fault@ },
            ))
        }),
{
    assert(refused + decimal(status as nat) + " "@ + status_reason(status) =~= refused + (decimal(
        status as nat,
    ) + " "@ + status_reason(status)));
}

/// The token is sent as a bearer token, in full.
pub proof fn law_token_is_sent_in_full(token: Seq<char>)
    ensures
        bearer(token) == "Bearer "@ + token,
        bearer(token).len() == 7 + token.len(),
{
    reveal_strlit("Bearer ");
}

/// Every call uses the core and the mail capability.
pub proof fn law_calls_use_core_and_mail()
    ensures
        mail_capabilities().len() == 2,
        mail_capabilities().contains("urn:ietf:params:jmap:core"@),
        mail_capabilities().contains("urn:ietf:params:jmap:mail"@),
{
    assert(mail_capabilities()[0] == "urn:ietf:params:jmap:core"@);
    assert(mail_capabilities()[1] == "urn:ietf:params:jmap:mail"@);
}

}
