//! What `Mailbox/get` and `Email/get` responses say, and how a message found
//! there is turned into what the store ingests.

use std::collections::hash_map::DefaultHasher;

use vstd::prelude::*;
use vstd::std_specs::hash::DefaultHasherAdditionalSpecFns;
use vstd::string::StringExecFns;

use crate::clock::SyncClock;
use crate::error::{prefixed, SyncError, SyncErrorView, SyncResult};
use crate::jmap::JmapResponse;
use crate::json::{json_views, Json, JsonView};
use crate::model::{Flag, FolderRole};
use crate::sanitize::{neutralized, sanitize_terminal_text, sanitized};
use crate::text::{
    ascii_lower, ascii_lower_char, chars_of, contains_text, decimal, decimal_text, is_white_space,
    join, joined, law_decimal_reads_back, lower_ascii, lowercased, opt_view, same_text, text_of,
    to_lowercase, trim_end, trimmed_end, views,
};

verus! {

// ---------------------------------------------------------------------------
// Method responses
// ---------------------------------------------------------------------------

/// What is wrong with a list of method responses.
#[derive(Clone, Copy, Debug, PartialEq, Eq, Structural)]
pub enum ResponseFault {
    /// A method response is no array.
    NotAnArray,
    /// The response of the method has no `list` array.
    MissingList,
}

/// The `list` that the first response of `method` carries. Responses before
/// it that are too short or belong to another method are passed over;
/// one that is no array is a fault.
pub open spec fn method_list(responses: Seq<JsonView>, method: Seq<char>) -> Result<
    Option<Seq<JsonView>>,
    ResponseFault,
>
    decreases responses.len(),
{
    if responses.len() == 0 {
        Ok(None)
    } else {
        match responses[0].as_array() {
            None => Err(ResponseFault::NotAnArray),
            Some(parts) => if parts.len() < 2 || parts[0].as_str() != Some(method) {
                method_list(responses.skip(1), method)
            } else {
                match list_of(parts[1]) {
                    Some(list) => Ok(Some(list)),
                    None => Err(ResponseFault::MissingList),
                }
            },
        }
    }
}

/// The `list` array of a method's result.
pub open spec fn list_of(data: JsonView) -> Option<Seq<JsonView>> {
    match data.get("list"@) {
        Some(v) => v.as_array(),
        None => None,
    }
}

/// The error for a faulty response of `method`.
pub open spec fn fault_error(method: Seq<char>, fault: ResponseFault) -> SyncErrorView {
    SyncErrorView::Protocol(
        match fault {
            ResponseFault::NotAnArray => method + ": not an array"@,
            ResponseFault::MissingList => method + ": missing list"@,
        },
    )
}

fn find_list<'a>(responses: &'a Vec<Json>, method: &str) -> (r: Result<
    Option<&'a Vec<Json>>,
    ResponseFault,
>)
    requires
        method@.len() > 0,
    ensures
        match method_list(json_views(responses@), method@) {
            Ok(Some(list)) => r matches Ok(Some(items)) && json_views(items@) == list,
            Ok(None) => r matches Ok(None),
            Err(fault) => r matches Err(f) && f == fault,
        },
{
    let ghost all = json_views(responses@);
    assert(all.skip(0) =~= all);
    let mut i: usize = 0;
    while i < responses.len()
        invariant
            i <= responses@.len(),
            all == json_views(responses@),
            method@.len() > 0,
            method_list(all, method@) == method_list(all.skip(i as int), method@),
        decreases responses@.len() - i,
    {
        assert(all.skip(i as int)[0] == responses@[i as int]@);
        assert(all.skip(i as int).skip(1) =~= all.skip(i + 1));
        let parts = match responses[i].as_array() {
            Some(parts) => parts,
            None => {
                return Err(ResponseFault::NotAnArray);
            },
        };
        i += 1;
        if parts.len() < 2 {
            continue ;
        }
        assert(json_views(parts@)[0] == parts@[0]@);
        assert(json_views(parts@)[1] == parts@[1]@);
        let named = match parts[0].as_str() {
            Some(name) => same_text(name, method),
            None => false,
        };
        if !named {
            continue ;
        }
        return match parts[1].get("list") {
            Some(list) => match list.as_array() {
                Some(items) => Ok(Some(items)),
                None => Err(ResponseFault::MissingList),
            },
            None => Err(ResponseFault::MissingList),
        };
    }
    Ok(None)
}

fn fault_of(method: &str, fault: ResponseFault) -> (r: SyncError)
    ensures
        r@ == fault_error(method@, fault),
{
    match fault {
        ResponseFault::NotAnArray => SyncError::Protocol(prefixed(method, ": not an array")),
        ResponseFault::MissingList => SyncError::Protocol(prefixed(method, ": missing list")),
    }
}

// ---------------------------------------------------------------------------
// Mailboxes
// ---------------------------------------------------------------------------

/// Parsed mailbox from a `Mailbox/get` response.
#[derive(Debug)]
pub struct ParsedMailbox {
    /// The mailbox name.
    pub name: String,
    /// The JMAP role, if any.
    pub role: Option<String>,
    /// The JMAP id for use in `Email/query` filters.
    pub id: String,
}

/// The contents of a [`ParsedMailbox`].
#[verifier::ext_equal]
pub struct MailboxView {
    pub name: Seq<char>,
    pub role: Option<Seq<char>>,
    pub id: Seq<char>,
}

impl View for ParsedMailbox {
    type V = MailboxView;

    open spec fn view(&self) -> MailboxView {
        MailboxView { name: self.name@, role: opt_view(self.role), id: self.id@ }
    }
}

/// The contents of a list of mailboxes.
pub open spec fn mailbox_views(mailboxes: Seq<ParsedMailbox>) -> Seq<MailboxView> {
    mailboxes.map_values(|m: ParsedMailbox| m@)
}

/// The string that member `name` holds, or the empty string.
pub open spec fn text_or_empty(v: JsonView, name: Seq<char>) -> Seq<char> {
    match v.text_at(name) {
        Some(t) => t,
        None => Seq::empty(),
    }
}

/// The mailbox that one entry of the list describes.
pub open spec fn mailbox_of(v: JsonView) -> MailboxView {
    MailboxView {
        name: text_or_empty(v, "name"@),
        role: v.text_at("role"@),
        id: text_or_empty(v, "id"@),
    }
}

/// The attributes under which a mailbox of the given role is stored.
pub open spec fn role_attributes(role: Option<Seq<char>>) -> Seq<Seq<char>> {
    match role {
        Some(role) => seq!["role:"@ + role],
        None => Seq::empty(),
    }
}

impl ParsedMailbox {
    /// The attributes under which the mailbox is stored.
    #[must_use]
    pub fn attributes(&self) -> (r: Vec<String>)
        ensures
            views(r@) == role_attributes(self@.role),
    {
        let mut attrs: Vec<String> = Vec::new();
        if let Some(role) = &self.role {
            attrs.push(prefixed("role:", role.as_str()));
        }
        assert(views(attrs@) =~= role_attributes(self@.role));
        attrs
    }
}

fn text_or_default(v: &Json, name: &str) -> (r: String)
    ensures
        r@ == text_or_empty(v@, name@),
{
    match v.text_at(name) {
        Some(t) => t,
        None => String::new(),
    }
}

fn opt_text(v: &Json, name: &str) -> (r: Option<String>)
    ensures
        opt_view(r) == v@.text_at(name@),
{
    v.text_at(name)
}

/// Extracts the mailbox list from a `Mailbox/get` response.
///
/// # Errors
/// [`SyncError::Protocol`] where a response before the one of `Mailbox/get`,
/// or that one itself, is no array, where it has no list, and where there is
/// none.
pub fn parse_mailbox_get(resp: &JmapResponse) -> (r: SyncResult<Vec<ParsedMailbox>>)
    ensures
        match method_list(json_views(resp.method_responses@), "Mailbox/get"@) {
            Ok(Some(list)) => r matches Ok(mailboxes) && mailbox_views(mailboxes@)
                == list.map_values(|v: JsonView| mailbox_of(v)),
            Ok(None) => r matches Err(e) && e@ == SyncErrorView::Protocol(
                "Mailbox/get: no method response found"@,
            ),
            Err(fault) => r matches Err(e) && e@ == fault_error("Mailbox/get"@, fault),
        },
{
    proof {
        reveal_strlit("Mailbox/get");
    }
    match find_list(&resp.method_responses, "Mailbox/get") {
        Ok(Some(list)) => {
            let mut mailboxes: Vec<ParsedMailbox> = Vec::new();
            let mut i: usize = 0;
            while i < list.len()
                invariant
                    i <= list@.len(),
                    mailboxes@.len() == i,
                    forall|j: int|
                        0 <= j < i ==> (#[trigger] mailboxes@[j])@ == mailbox_of(list@[j]@),
                decreases list@.len() - i,
            {
                let m = &list[i];
                mailboxes.push(
                    ParsedMailbox {
                        name: text_or_default(m, "name"),
                        role: opt_text(m, "role"),
                        id: text_or_default(m, "id"),
                    },
                );
                i += 1;
            }
            assert(mailbox_views(mailboxes@) =~= json_views(list@).map_values(
                |v: JsonView| mailbox_of(v),
            ));
            Ok(mailboxes)
        },
        Ok(None) => Err(SyncError::Protocol("Mailbox/get: no method response found".to_string())),
        Err(f) => Err(fault_of("Mailbox/get", f)),
    }
}

// ---------------------------------------------------------------------------
// Messages
// ---------------------------------------------------------------------------

/// An address of a parsed message.
#[derive(Clone, Debug)]
pub struct ParsedAddress {
    /// Display name, if any.
    pub name: Option<String>,
    /// Bare address.
    pub email: String,
}

/// A parsed email from `Email/get`.
#[derive(Debug)]
pub struct ParsedEmail {
    /// The JMAP id.
    pub id: String,
    /// Subject.
    pub subject: Option<String>,
    /// Senders.
    pub from: Vec<ParsedAddress>,
    /// Recipients.
    pub to: Vec<ParsedAddress>,
    /// `receivedAt`, as sent (RFC 3339).
    pub received_at: Option<String>,
    /// Size in bytes.
    pub size: Option<u64>,
    /// Keywords set on the message.
    pub keywords: Vec<String>,
    /// Ids of the mailboxes that hold the message.
    pub mailbox_ids: Vec<String>,
}

/// The contents of a [`ParsedAddress`].
#[verifier::ext_equal]
pub struct AddressView {
    pub name: Option<Seq<char>>,
    pub email: Seq<char>,
}

/// The contents of a [`ParsedEmail`].
#[verifier::ext_equal]
pub struct EmailView {
    pub id: Seq<char>,
    pub subject: Option<Seq<char>>,
    pub from: Seq<AddressView>,
    pub to: Seq<AddressView>,
    pub received_at: Option<Seq<char>>,
    pub size: Option<u64>,
    pub keywords: Seq<Seq<char>>,
    pub mailbox_ids: Seq<Seq<char>>,
}

impl View for ParsedAddress {
    type V = AddressView;

    open spec fn view(&self) -> AddressView {
        AddressView { name: opt_view(self.name), email: self.email@ }
    }
}

/// The contents of a list of addresses.
pub open spec fn address_views(addresses: Seq<ParsedAddress>) -> Seq<AddressView> {
    addresses.map_values(|a: ParsedAddress| a@)
}

impl View for ParsedEmail {
    type V = EmailView;

    open spec fn view(&self) -> EmailView {
        EmailView {
            id: self.id@,
            subject: opt_view(self.subject),
            from: address_views(self.from@),
            to: address_views(self.to@),
            received_at: opt_view(self.received_at),
            size: self.size,
            keywords: views(self.keywords@),
            mailbox_ids: views(self.mailbox_ids@),
        }
    }
}

/// The contents of a list of messages.
pub open spec fn email_views(emails: Seq<ParsedEmail>) -> Seq<EmailView> {
    emails.map_values(|e: ParsedEmail| e@)
}

/// The address that one entry describes; none without an `email` string.
pub open spec fn address_of(v: JsonView) -> Option<AddressView> {
    match v.text_at("email"@) {
        Some(email) => Some(AddressView { name: v.text_at("name"@), email }),
        None => None,
    }
}

/// The addresses that a list of entries describes, in order, without the
/// entries that describe none.
pub open spec fn addresses_of(entries: Seq<JsonView>) -> Seq<AddressView>
    decreases entries.len(),
{
    if entries.len() == 0 {
        Seq::empty()
    } else {
        let head = addresses_of(entries.drop_last());
        match address_of(entries.last()) {
            Some(a) => head.push(a),
            None => head,
        }
    }
}

/// The addresses of an address list; none where the value is no array.
pub open spec fn address_list(v: Option<JsonView>) -> Seq<AddressView> {
    match v {
        Some(v) => match v.as_array() {
            Some(entries) => addresses_of(entries),
            None => Seq::empty(),
        },
        None => Seq::empty(),
    }
}

/// The names of the members that member `name` has, if it is an object.
pub open spec fn keys_at(v: JsonView, name: Seq<char>) -> Seq<Seq<char>> {
    match v.get(name) {
        Some(v) => match v.keys() {
            Some(keys) => keys,
            None => Seq::empty(),
        },
        None => Seq::empty(),
    }
}

/// The message that one entry of the list describes.
pub open spec fn email_of(v: JsonView) -> EmailView {
    EmailView {
        id: text_or_empty(v, "id"@),
        subject: v.text_at("subject"@),
        from: address_list(v.get("from"@)),
        to: address_list(v.get("to"@)),
        received_at: v.text_at("receivedAt"@),
        size: match v.get("size"@) {
            Some(size) => size.as_u64(),
            None => None,
        },
        keywords: keys_at(v, "keywords"@),
        mailbox_ids: keys_at(v, "mailboxIds"@),
    }
}

/// Parses a JMAP address list from a JSON value.
#[must_use]
pub fn parse_address_list(val: Option<&Json>) -> (r: Vec<ParsedAddress>)
    ensures
        address_views(r@) == address_list(
            match val {
                Some(v) => Some(v@),
                None => None,
            },
        ),
{
    let mut out: Vec<ParsedAddress> = Vec::new();
    let entries = match val {
        Some(v) => v.as_array(),
        None => None,
    };
    assert(address_views(out@) =~= Seq::empty());
    if let Some(entries) = entries {
        let ghost all = json_views(entries@);
        let mut i: usize = 0;
        while i < entries.len()
            invariant
                i <= entries@.len(),
                all == json_views(entries@),
                address_views(out@) == addresses_of(all.take(i as int)),
            decreases entries@.len() - i,
        {
            let entry = &entries[i];
            let ghost before = out@;
            let ghost head = all.take(i + 1);
            assert(head.drop_last() =~= all.take(i as int));
            assert(head.last() == entry@);
            if let Some(email) = entry.text_at("email") {
                out.push(ParsedAddress { name: opt_text(entry, "name"), email });
                assert(address_views(out@) =~= address_views(before).push(
                    address_of(entry@)->0,
                ));
            }
            i += 1;
        }
        assert(all.take(all.len() as int) =~= all);
    }
    out
}

fn keys_or_default(v: &Json, name: &str) -> (r: Vec<String>)
    ensures
        views(r@) == keys_at(v@, name@),
{
    let found = match v.get(name) {
        Some(v) => v.keys(),
        None => None,
    };
    match found {
        Some(keys) => keys,
        None => {
            let none: Vec<String> = Vec::new();
            assert(views(none@) =~= Seq::empty());
            none
        },
    }
}

/// The message that one entry of an `Email/get` list describes.
#[must_use]
pub fn parse_email(m: &Json) -> (r: ParsedEmail)
    ensures
        r@ == email_of(m@),
{
    let size = match m.get("size") {
        Some(v) => v.as_u64(),
        None => None,
    };
    ParsedEmail {
        id: text_or_default(m, "id"),
        subject: opt_text(m, "subject"),
        from: parse_address_list(m.get("from")),
        to: parse_address_list(m.get("to")),
        received_at: opt_text(m, "receivedAt"),
        size,
        keywords: keys_or_default(m, "keywords"),
        mailbox_ids: keys_or_default(m, "mailboxIds"),
    }
}

/// Extracts the email list from an `Email/get` response; no email where there
/// is no such response.
///
/// # Errors
/// [`SyncError::Protocol`] where a response before the one of `Email/get`, or
/// that one itself, is no array, and where it has no list.
pub fn parse_email_get(resp: &JmapResponse) -> (r: SyncResult<Vec<ParsedEmail>>)
    ensures
        match method_list(json_views(resp.method_responses@), "Email/get"@) {
            Ok(Some(list)) => r matches Ok(emails) && email_views(emails@) == list.map_values(
                |v: JsonView| email_of(v),
            ),
            Ok(None) => r matches Ok(emails) && emails@.len() == 0,
            Err(fault) => r matches Err(e) && e@ == fault_error("Email/get"@, fault),
        },
{
    proof {
        reveal_strlit("Email/get");
    }
    match find_list(&resp.method_responses, "Email/get") {
        Ok(Some(list)) => {
            let mut emails: Vec<ParsedEmail> = Vec::new();
            let mut i: usize = 0;
            while i < list.len()
                invariant
                    i <= list@.len(),
                    emails@.len() == i,
                    forall|j: int| 0 <= j < i ==> (#[trigger] emails@[j])@ == email_of(list@[j]@),
                decreases list@.len() - i,
            {
                emails.push(parse_email(&list[i]));
                i += 1;
            }
            assert(email_views(emails@) =~= json_views(list@).map_values(
                |v: JsonView| email_of(v),
            ));
            Ok(emails)
        },
        Ok(None) => Ok(Vec::new()),
        Err(f) => Err(fault_of("Email/get", f)),
    }
}

// ---------------------------------------------------------------------------
// Message identity
// ---------------------------------------------------------------------------

/// What hashing a string feeds to the hasher.
pub uninterp spec fn hash_writes(text: Seq<char>) -> Seq<Seq<u8>>;

/// `<String as std::hash::Hash>::hash`: feeds the hasher with writes that
/// depend on the characters of the string alone, after those it has taken
/// already.
#[verifier::external_body]
fn hash_text(text: &String, hasher: &mut DefaultHasher)
    ensures
        final(hasher)@ == old(hasher)@ + hash_writes(text@),
{
    std::hash::Hash::hash(text, hasher)
}

/// The 64-bit hash of a JMAP id.
pub open spec fn id_hash(id: Seq<char>) -> u64 {
    DefaultHasher::spec_finish(hash_writes(id))
}

/// The UID for a 64-bit hash: 1 to `u32::MAX`.
pub open spec fn uid_for_hash(hash: u64) -> u32 {
    (hash % 0xffff_ffff + 1) as u32
}

/// The UID for a 64-bit hash.
#[must_use]
pub fn uid_from_hash(hash: u64) -> (r: u32)
    ensures
        r == uid_for_hash(hash),
        r == hash % 0xffff_ffff + 1,
{
    (hash % 0xffff_ffff + 1) as u32
}

// ---------------------------------------------------------------------------
// Received time
// ---------------------------------------------------------------------------

/// The Unix time, in milliseconds, of an RFC 3339 timestamp; none where the
/// text is no such timestamp.
pub uninterp spec fn rfc3339_millis(text: Seq<char>) -> Option<i64>;

/// `chrono::DateTime::parse_from_rfc3339`, then the number of milliseconds
/// since the Unix epoch of the time it reads. The text carries its own
/// offset from UTC, so the result depends on the text alone.
#[verifier::external_body]
fn read_rfc3339(text: &str) -> (r: Option<i64>)
    ensures
        r == rfc3339_millis(text@),
{
    chrono::DateTime::parse_from_rfc3339(text).ok().map(|dt| dt.timestamp_millis())
}

/// Parses an RFC 3339 timestamp to Unix milliseconds.
#[must_use]
pub fn parse_rfc3339_ms(s: &str) -> (r: Option<i64>)
    ensures
        r == rfc3339_millis(s@),
{
    read_rfc3339(s)
}

/// The time that a message says it was received.
pub open spec fn stated_time(received_at: Option<Seq<char>>) -> Option<i64> {
    match received_at {
        Some(text) => rfc3339_millis(text),
        None => None,
    }
}

/// The time under which a message is stored: the one it states, or else `now`.
pub open spec fn time_or(stated: Option<i64>, now: i64) -> i64 {
    match stated {
        Some(ms) => ms,
        None => now,
    }
}

/// The time under which a message is stored: the one it states, or else `now`.
#[must_use]
pub fn received_time(stated: Option<i64>, now: i64) -> (r: i64)
    ensures
        r == time_or(stated, now),
{
    match stated {
        Some(ms) => ms,
        None => now,
    }
}

// ---------------------------------------------------------------------------
// Flags and header
// ---------------------------------------------------------------------------

/// One flag, if its keyword is among `keywords`.
pub open spec fn flag_if(keywords: Seq<Seq<char>>, keyword: Seq<char>, flag: Flag) -> Seq<Flag> {
    if keywords.contains(keyword) {
        seq![flag]
    } else {
        Seq::empty()
    }
}

/// The flags that JMAP keywords stand for, in a fixed order.
pub open spec fn flags_of(keywords: Seq<Seq<char>>) -> Seq<Flag> {
    flag_if(keywords, "$seen"@, Flag::Seen) + flag_if(keywords, "$answered"@, Flag::Answered)
        + flag_if(keywords, "$flagged"@, Flag::Flagged) + flag_if(
        keywords,
        "$draft"@,
        Flag::Draft,
    )
}

/// An address as a header shows it: `Name <email>`, or the bare address where
/// there is no name or an empty one.
pub open spec fn address_text(a: AddressView) -> Seq<char> {
    match a.name {
        Some(name) => if name.len() > 0 {
            name + " <"@ + a.email + ">"@
        } else {
            a.email
        },
        None => a.email,
    }
}

/// A list of addresses as a header shows it.
pub open spec fn addresses_text(list: Seq<AddressView>) -> Seq<char> {
    joined(list.map_values(|a: AddressView| address_text(a)), ", "@)
}

/// The header-only view of a message.
pub open spec fn header_text(email: EmailView, uid: u32) -> Seq<char> {
    let subject = match email.subject {
        Some(s) => s,
        None => Seq::empty(),
    };
    "From: "@ + addresses_text(email.from) + "\r\nTo: "@ + addresses_text(email.to)
        + "\r\nSubject: "@ + subject + "\r\nX-Sync-UID: "@ + decimal(uid as nat) + "\r\n\r\n"@
}

impl ParsedAddress {
    /// The address as a header shows it.
    #[must_use]
    pub fn header_form(&self) -> (r: String)
        ensures
            r@ == address_text(self@),
    {
        if let Some(name) = &self.name {
            if name.as_str().unicode_len() > 0 {
                let mut out = name.clone();
                out.append(" <");
                out.append(self.email.as_str());
                out.append(">");
                return out;
            }
        }
        self.email.clone()
    }
}

fn join_addresses(list: &Vec<ParsedAddress>) -> (r: String)
    ensures
        r@ == addresses_text(address_views(list@)),
{
    let mut parts: Vec<String> = Vec::new();
    let mut i: usize = 0;
    while i < list.len()
        invariant
            i <= list@.len(),
            parts@.len() == i,
            forall|j: int| 0 <= j < i ==> (#[trigger] parts@[j])@ == address_text(list@[j]@),
        decreases list@.len() - i,
    {
        parts.push(list[i].header_form());
        i += 1;
    }
    assert(views(parts@) =~= address_views(list@).map_values(|a: AddressView| address_text(a)));
    join(&parts, ", ")
}

fn push_flag_if(flags: &mut Vec<Flag>, keywords: &Vec<String>, keyword: &str, flag: Flag)
    ensures
        final(flags)@ == old(flags)@ + flag_if(views(keywords@), keyword@, flag),
{
    let ghost before = flags@;
    if contains_text(keywords, keyword) {
        flags.push(flag);
    }
    assert(flags@ =~= before + flag_if(views(keywords@), keyword@, flag));
}

impl ParsedEmail {
    /// Deterministic UID from the JMAP email id (stable across sync runs;
    /// collisions fold into the same row, which JMAP ids make rare).
    #[must_use]
    pub fn jmap_id_hash(&self) -> (r: u32)
        ensures
            r == uid_for_hash(id_hash(self@.id)),
            r >= 1,
    {
        let mut hasher = DefaultHasher::new();
        hash_text(&self.id, &mut hasher);
        assert(hasher@ =~= hash_writes(self@.id));
        uid_from_hash(std::hash::Hasher::finish(&hasher))
    }

    /// The time at which the message was received (Unix ms): the one that it
    /// states, or the given one.
    #[must_use]
    pub fn received_at_or(&self, now: i64) -> (r: i64)
        ensures
            r == time_or(stated_time(self@.received_at), now),
    {
        received_time(self.stated_at_ms(), now)
    }

    /// The time at which the message says it was received (Unix ms).
    #[must_use]
    pub fn stated_at_ms(&self) -> (r: Option<i64>)
        ensures
            r == stated_time(self@.received_at),
    {
        match &self.received_at {
            Some(text) => parse_rfc3339_ms(text.as_str()),
            None => None,
        }
    }

    /// The time at which the message was received (Unix ms): the one that it
    /// states, or the clock's.
    #[must_use]
    pub fn received_at_ms<C: SyncClock + ?Sized>(&self, clock: &C) -> (r: i64)
        ensures
            match stated_time(self@.received_at) {
                Some(ms) => r == ms,
                None => call_ensures(C::now_unix_ms, (clock,), r),
            },
    {
        match self.stated_at_ms() {
            Some(ms) => ms,
            None => clock.now_unix_ms(),
        }
    }

    /// The flags that the keywords stand for.
    #[must_use]
    pub fn flags(&self) -> (r: Vec<Flag>)
        ensures
            r@ == flags_of(self@.keywords),
    {
        let mut flags: Vec<Flag> = Vec::new();
        push_flag_if(&mut flags, &self.keywords, "$seen", Flag::Seen);
        push_flag_if(&mut flags, &self.keywords, "$answered", Flag::Answered);
        push_flag_if(&mut flags, &self.keywords, "$flagged", Flag::Flagged);
        push_flag_if(&mut flags, &self.keywords, "$draft", Flag::Draft);
        assert(flags@ =~= flags_of(self@.keywords));
        flags
    }

    /// Reconstructs a header-only RFC 822 view for the parse pipeline.
    #[must_use]
    pub fn to_header(&self, uid: u32) -> (r: String)
        ensures
            r@ == header_text(self@, uid),
    {
        let mut out = prefixed("From: ", join_addresses(&self.from).as_str());
        out.append("\r\nTo: ");
        out.append(join_addresses(&self.to).as_str());
        out.append("\r\nSubject: ");
        let ghost head = out@;
        match &self.subject {
            Some(subject) => {
                out.append(subject.as_str());
            },
            None => {
                assert(head =~= head + Seq::<char>::empty());
            },
        }
        out.append("\r\nX-Sync-UID: ");
        out.append(decimal_text(uid as u64).as_str());
        out.append("\r\n\r\n");
        out
    }
}

// ---------------------------------------------------------------------------
// Folder roles
// ---------------------------------------------------------------------------

/// Whether `c` parts the segments of a mailbox name.
pub open spec fn is_separator(c: char) -> bool {
    c == '/' || c == '.'
}

/// What stands behind the last separator of a mailbox name.
pub open spec fn last_segment(name: Seq<char>) -> Seq<char>
    decreases name.len(),
{
    if name.len() == 0 || is_separator(name.last()) {
        Seq::empty()
    } else {
        last_segment(name.drop_last()).push(name.last())
    }
}

/// The role of a mailbox whose name ends in the lower-case segment given.
pub open spec fn segment_role(last: Seq<char>) -> Option<FolderRole> {
    if last == "inbox"@ {
        Some(FolderRole::Inbox)
    } else if last == "sent"@ || "sent messages"@.is_prefix_of(last) {
        Some(FolderRole::Sent)
    } else if last == "drafts"@ {
        Some(FolderRole::Drafts)
    } else if last == "trash"@ || last == "deleted messages"@ {
        Some(FolderRole::Trash)
    } else if last == "junk"@ || last == "spam"@ {
        Some(FolderRole::Junk)
    } else if last == "archive"@ || last == "all mail"@ {
        Some(FolderRole::Archive)
    } else {
        None
    }
}

/// A mailbox name without terminal hazards and trailing white space.
pub open spec fn cleaned_name(name: Seq<char>) -> Seq<char> {
    trimmed_end(sanitized(name))
}

/// The role of a mailbox: the last segment of its cleaned name decides, in
/// lower case. A blank name is the inbox. ASCII letters are folded before
/// the Unicode mapping, which takes them to the same small letters.
pub open spec fn jmap_role(name: Seq<char>) -> Option<FolderRole> {
    let cleaned = cleaned_name(name);
    if cleaned.len() == 0 {
        Some(FolderRole::Inbox)
    } else {
        segment_role(lowercased(ascii_lower(last_segment(cleaned))))
    }
}

/// The role of a mailbox whose name is ASCII.
pub open spec fn ascii_role(name: Seq<char>) -> Option<FolderRole> {
    let cleaned = cleaned_name(name);
    if cleaned.len() == 0 {
        Some(FolderRole::Inbox)
    } else {
        segment_role(ascii_lower(last_segment(cleaned)))
    }
}

fn last_segment_start(chars: &Vec<char>) -> (r: usize)
    ensures
        r <= chars@.len(),
        chars@.skip(r as int) == last_segment(chars@),
{
    let mut start: usize = chars.len();
    assert(chars@.take(start as int) =~= chars@);
    assert(chars@.skip(start as int) =~= Seq::empty());
    while start > 0 && chars[start - 1] != '/' && chars[start - 1] != '.'
        invariant
            start <= chars@.len(),
            last_segment(chars@) == last_segment(chars@.take(start as int)) + chars@.skip(
                start as int,
            ),
        decreases start,
    {
        start -= 1;
        proof {
            let longer = chars@.take(start + 1);
            assert(longer.drop_last() =~= chars@.take(start as int));
            assert(longer.last() == chars@[start as int]);
            assert(last_segment(longer) + chars@.skip(start + 1) =~= last_segment(
                chars@.take(start as int),
            ) + chars@.skip(start as int));
        }
    }
    assert(last_segment(chars@.take(start as int)) =~= Seq::empty());
    assert(last_segment(chars@) =~= chars@.skip(start as int));
    start
}

/// The role of a mailbox whose name ends in the lower-case segment given.
#[must_use]
pub fn role_of_segment(last: &str) -> (r: Option<FolderRole>)
    ensures
        r == segment_role(last@),
{
    let chars = chars_of(last);
    let sent_messages = if chars.len() >= 13 {
        let head = text_of(&chars, 0, 13);
        assert(head@ =~= last@.take(13));
        same_text(head.as_str(), "sent messages")
    } else {
        false
    };
    proof {
        reveal_strlit("sent messages");
        assert(last@.len() >= 13 ==> (last@.take(13) == "sent messages"@
            <==> "sent messages"@.is_prefix_of(last@)));
    }
    if same_text(last, "inbox") {
        Some(FolderRole::Inbox)
    } else if same_text(last, "sent") || sent_messages {
        Some(FolderRole::Sent)
    } else if same_text(last, "drafts") {
        Some(FolderRole::Drafts)
    } else if same_text(last, "trash") || same_text(last, "deleted messages") {
        Some(FolderRole::Trash)
    } else if same_text(last, "junk") || same_text(last, "spam") {
        Some(FolderRole::Junk)
    } else if same_text(last, "archive") || same_text(last, "all mail") {
        Some(FolderRole::Archive)
    } else {
        None
    }
}

/// Maps a JMAP mailbox name to a [`FolderRole`]: the name is sanitized and
/// trimmed at its end, and its last segment is lower-cased.
#[must_use]
pub fn role_from_jmap(name: &str) -> (r: Option<FolderRole>)
    ensures
        r == jmap_role(name@),
        vstd::utf8::is_ascii_chars(name@) ==> r == ascii_role(name@),
{
    let cleaned = trim_end(sanitize_terminal_text(name).as_str());
    let chars = chars_of(cleaned.as_str());
    if chars.len() == 0 {
        return Some(FolderRole::Inbox);
    }
    let start = last_segment_start(&chars);
    let segment = text_of(&chars, start, chars.len());
    let folded = lower_ascii(segment.as_str());
    let last = to_lowercase(folded.as_str());
    proof {
        assert(segment@ =~= last_segment(cleaned@));
        if vstd::utf8::is_ascii_chars(name@) {
            lemma_cleaned_ascii(name@);
            assert forall|i: int| 0 <= i < folded@.len() implies '\0' <= #[trigger] folded@[i]
                && folded@[i] <= '\u{7f}' by {
                assert(folded@[i] == ascii_lower_char(segment@[i]));
                assert(segment@[i] == cleaned@[start + i]);
            }
            assert(ascii_lower(folded@) =~= folded@);
        }
    }
    role_of_segment(last.as_str())
}

// ---------------------------------------------------------------------------
// Laws
// ---------------------------------------------------------------------------

/// Whether a response is too short or belongs to another method.
pub open spec fn is_other_response(response: JsonView, method: Seq<char>) -> bool {
    match response.as_array() {
        Some(parts) => parts.len() < 2 || parts[0].as_str() != Some(method),
        None => false,
    }
}

/// Responses that are too short or belong to another method are passed over,
/// however many come first.
pub proof fn law_other_responses_are_passed_over(
    others: Seq<JsonView>,
    rest: Seq<JsonView>,
    method: Seq<char>,
)
    requires
        forall|i: int|
            0 <= i < others.len() ==> is_other_response(#[trigger] others[i], method),
    ensures
        method_list(others + rest, method) == method_list(rest, method),
    decreases others.len(),
{
    let all = others + rest;
    if others.len() == 0 {
        assert(all =~= rest);
    } else {
        assert(all[0] == others[0]);
        assert(all.skip(1) =~= others.skip(1) + rest);
        assert forall|i: int| 0 <= i < others.skip(1).len() implies is_other_response(
            #[trigger] others.skip(1)[i],
            method,
        ) by {
            assert(others.skip(1)[i] == others[i + 1]);
        }
        law_other_responses_are_passed_over(others.skip(1), rest, method);
    }
}

/// A UID is never zero and depends on the JMAP id alone: messages with the
/// same id get the same UID in every run.
pub proof fn law_uid_is_stable_and_nonzero(a: EmailView, b: EmailView)
    requires
        a.id == b.id,
    ensures
        uid_for_hash(id_hash(a.id)) == uid_for_hash(id_hash(b.id)),
        uid_for_hash(id_hash(a.id)) >= 1,
{
}

/// A message carries exactly the flags whose keywords are set, each once, and
/// no other flag.
pub proof fn law_flags_follow_keywords(keywords: Seq<Seq<char>>)
    ensures
        flags_of(keywords).no_duplicates(),
        forall|flag: Flag| #[trigger]
            flags_of(keywords).contains(flag) <==> {
                ||| flag == Flag::Seen && keywords.contains("$seen"@)
                ||| flag == Flag::Answered && keywords.contains("$answered"@)
                ||| flag == Flag::Flagged && keywords.contains("$flagged"@)
                ||| flag == Flag::Draft && keywords.contains("$draft"@)
            },
{
    let seen = flag_if(keywords, "$seen"@, Flag::Seen);
    let answered = flag_if(keywords, "$answered"@, Flag::Answered);
    let flagged = flag_if(keywords, "$flagged"@, Flag::Flagged);
    let draft = flag_if(keywords, "$draft"@, Flag::Draft);
    let all = flags_of(keywords);
    let n1 = seen.len() as int;
    let n2 = n1 + answered.len();
    let n3 = n2 + flagged.len();
    if seen.len() > 0 {
        assert(all[0] == Flag::Seen);
    }
    if answered.len() > 0 {
        assert(all[n1] == Flag::Answered);
    }
    if flagged.len() > 0 {
        assert(all[n2] == Flag::Flagged);
    }
    if draft.len() > 0 {
        assert(all[n3] == Flag::Draft);
    }
}

/// The flags depend on which keywords are set, not on their order or number.
pub proof fn law_flags_ignore_keyword_order(a: Seq<Seq<char>>, b: Seq<Seq<char>>)
    requires
        forall|k: Seq<char>| #[trigger] a.contains(k) <==> b.contains(k),
    ensures
        flags_of(a) == flags_of(b),
{
    assert(a.contains("$seen"@) <==> b.contains("$seen"@));
    assert(a.contains("$answered"@) <==> b.contains("$answered"@));
    assert(a.contains("$flagged"@) <==> b.contains("$flagged"@));
    assert(a.contains("$draft"@) <==> b.contains("$draft"@));
}

/// The header view of a message tells its UID apart from every other UID.
pub proof fn law_header_tells_uids_apart(email: EmailView, u: u32, v: u32)
    requires
        header_text(email, u) == header_text(email, v),
    ensures
        u == v,
{
    let subject = match email.subject {
        Some(s) => s,
        None => Seq::empty(),
    };
    let head = "From: "@ + addresses_text(email.from) + "\r\nTo: "@ + addresses_text(email.to)
        + "\r\nSubject: "@ + subject + "\r\nX-Sync-UID: "@;
    let end = "\r\n\r\n"@;
    let du = decimal(u as nat);
    let dv = decimal(v as nat);
    let hu = header_text(email, u);
    let hv = header_text(email, v);
    assert(hu.len() == head.len() + du.len() + end.len());
    assert(hv.len() == head.len() + dv.len() + end.len());
    assert(du =~= hu.subrange(head.len() as int, (head.len() + du.len()) as int));
    assert(dv =~= hv.subrange(head.len() as int, (head.len() + dv.len()) as int));
    law_decimal_reads_back(u as u64);
    law_decimal_reads_back(v as u64);
}

proof fn lemma_last_segment(head: Seq<char>, leaf: Seq<char>)
    requires
        head.len() == 0 || is_separator(head.last()),
        forall|i: int| 0 <= i < leaf.len() ==> !is_separator(#[trigger] leaf[i]),
    ensures
        last_segment(head + leaf) == leaf,
    decreases leaf.len(),
{
    let all = head + leaf;
    if leaf.len() == 0 {
        assert(all =~= head);
        assert(last_segment(head) =~= Seq::<char>::empty());
        assert(leaf =~= Seq::<char>::empty());
    } else {
        assert(all.drop_last() =~= head + leaf.drop_last());
        assert(all.last() == leaf.last());
        lemma_last_segment(head, leaf.drop_last());
        assert(leaf.drop_last().push(leaf.last()) =~= leaf);
    }
}

/// Of a nested mailbox name only what stands behind the last separator
/// decides the role, whichever separator it is and whatever stands before
/// it, unless the rest is blank.
pub proof fn law_role_of_a_nested_name(parent: Seq<char>, separator: char, leaf: Seq<char>)
    requires
        is_separator(separator),
        cleaned_name(leaf).len() > 0,
        forall|i: int| 0 <= i < leaf.len() ==> !is_separator(#[trigger] leaf[i]),
    ensures
        jmap_role(parent.push(separator) + leaf) == jmap_role(leaf),
{
    let head = parent.push(separator);
    let clean_parent = sanitized(parent);
    let clean_leaf = cleaned_name(leaf);
    lemma_sanitized_concat(head, leaf);
    assert(head.drop_last() =~= parent);
    assert(sanitized(head) =~= clean_parent.push(separator));
    lemma_trimmed_concat(sanitized(head), sanitized(leaf));
    assert(cleaned_name(head + leaf) =~= clean_parent.push(separator) + clean_leaf);
    lemma_sanitized_segment(leaf);
    lemma_trimmed_is_prefix(sanitized(leaf));
    assert forall|i: int| 0 <= i < clean_leaf.len() implies !is_separator(
        #[trigger] clean_leaf[i],
    ) by {
        assert(clean_leaf[i] == sanitized(leaf)[i]);
    }
    lemma_last_segment(clean_parent.push(separator), clean_leaf);
    lemma_last_segment(Seq::empty(), clean_leaf);
    assert(Seq::<char>::empty() + clean_leaf =~= clean_leaf);
}

/// White space at the end of a mailbox name changes nothing.
pub proof fn law_role_ignores_trailing_white_space(name: Seq<char>, spaces: Seq<char>)
    requires
        forall|i: int| 0 <= i < spaces.len() ==> is_white_space(#[trigger] spaces[i]),
    ensures
        cleaned_name(name + spaces) == cleaned_name(name),
        jmap_role(name + spaces) == jmap_role(name),
    decreases spaces.len(),
{
    let all = name + spaces;
    if spaces.len() == 0 {
        assert(all =~= name);
    } else {
        let fewer = spaces.drop_last();
        assert forall|i: int| 0 <= i < fewer.len() implies is_white_space(#[trigger] fewer[i]) by {
            assert(fewer[i] == spaces[i]);
        }
        law_role_ignores_trailing_white_space(name, fewer);
        assert(all.drop_last() =~= name + fewer);
        assert(is_white_space(spaces[spaces.len() - 1]));
        let tail = neutralized(all.last());
        assert(tail.len() == 1 && is_white_space(tail[0]));
        assert(sanitized(all).drop_last() =~= sanitized(name + fewer));
        assert(sanitized(all).last() == tail[0]);
    }
}

/// ESC characters anywhere in a mailbox name change nothing.
pub proof fn law_role_ignores_escapes(before: Seq<char>, after: Seq<char>)
    ensures
        cleaned_name(before.push('\u{1b}') + after) == cleaned_name(before + after),
        jmap_role(before.push('\u{1b}') + after) == jmap_role(before + after),
{
    let escaped = before.push('\u{1b}');
    lemma_sanitized_concat(escaped, after);
    lemma_sanitized_concat(before, after);
    assert(escaped.drop_last() =~= before);
    assert(sanitized(escaped) =~= sanitized(before));
}

/// The role of a mailbox does not depend on the case of the ASCII letters in
/// its name: names equal up to that case have the same role.
pub proof fn law_role_ignores_ascii_case(name: Seq<char>, other: Seq<char>)
    requires
        ascii_lower(name) == ascii_lower(other),
    ensures
        jmap_role(name) == jmap_role(other),
{
    lemma_segment_lower(name);
    lemma_segment_lower(other);
}

/// Folding the case of a name folds that of its last segment.
proof fn lemma_segment_lower(name: Seq<char>)
    ensures
        cleaned_name(ascii_lower(name)) == ascii_lower(cleaned_name(name)),
        last_segment(cleaned_name(ascii_lower(name))) == ascii_lower(
            last_segment(cleaned_name(name)),
        ),
{
    lemma_sanitized_lower(name);
    lemma_trimmed_lower(sanitized(name));
    lemma_last_segment_lower(cleaned_name(name));
}

proof fn lemma_last_segment_lower(s: Seq<char>)
    ensures
        last_segment(ascii_lower(s)) == ascii_lower(last_segment(s)),
    decreases s.len(),
{
    let low = ascii_lower(s);
    if s.len() > 0 {
        assert(low.last() == ascii_lower_char(s.last()));
        assert(low.drop_last() =~= ascii_lower(s.drop_last()));
        lemma_last_segment_lower(s.drop_last());
    }
    assert(last_segment(low) =~= ascii_lower(last_segment(s)));
}

proof fn lemma_sanitized_concat(a: Seq<char>, b: Seq<char>)
    ensures
        sanitized(a + b) == sanitized(a) + sanitized(b),
    decreases b.len(),
{
    let all = a + b;
    if b.len() == 0 {
        assert(all =~= a);
        assert(sanitized(a) + sanitized(b) =~= sanitized(a));
    } else {
        assert(all.drop_last() =~= a + b.drop_last());
        lemma_sanitized_concat(a, b.drop_last());
        assert(sanitized(all) =~= sanitized(a) + sanitized(b));
    }
}

proof fn lemma_trimmed_concat(a: Seq<char>, b: Seq<char>)
    requires
        trimmed_end(b).len() > 0,
    ensures
        trimmed_end(a + b) == a + trimmed_end(b),
    decreases b.len(),
{
    let all = a + b;
    assert(b.len() > 0);
    assert(all.last() == b.last());
    if is_white_space(b.last()) {
        assert(all.drop_last() =~= a + b.drop_last());
        lemma_trimmed_concat(a, b.drop_last());
    }
}

proof fn lemma_trimmed_is_prefix(s: Seq<char>)
    ensures
        trimmed_end(s).is_prefix_of(s),
    decreases s.len(),
{
    if s.len() > 0 && is_white_space(s.last()) {
        lemma_trimmed_is_prefix(s.drop_last());
        assert(trimmed_end(s) =~= s.take(trimmed_end(s).len() as int));
    }
}

proof fn lemma_sanitized_segment(s: Seq<char>)
    requires
        forall|i: int| 0 <= i < s.len() ==> !is_separator(#[trigger] s[i]),
    ensures
        forall|i: int| 0 <= i < sanitized(s).len() ==> !is_separator(#[trigger] sanitized(s)[i]),
    decreases s.len(),
{
    if s.len() > 0 {
        let head = s.drop_last();
        assert forall|i: int| 0 <= i < head.len() implies !is_separator(#[trigger] head[i]) by {
            assert(head[i] == s[i]);
        }
        lemma_sanitized_segment(head);
        assert(!is_separator(s[s.len() - 1]));
        let tail = neutralized(s.last());
        assert forall|i: int| 0 <= i < sanitized(s).len() implies !is_separator(
            #[trigger] sanitized(s)[i],
        ) by {
            if i < sanitized(head).len() {
                assert(sanitized(s)[i] == sanitized(head)[i]);
            } else {
                assert(sanitized(s)[i] == tail[i - sanitized(head).len()]);
            }
        }
    }
}

proof fn lemma_sanitized_ascii(s: Seq<char>)
    requires
        vstd::utf8::is_ascii_chars(s),
    ensures
        vstd::utf8::is_ascii_chars(sanitized(s)),
    decreases s.len(),
{
    if s.len() > 0 {
        let head = s.drop_last();
        assert forall|i: int| 0 <= i < head.len() implies '\0' <= #[trigger] head[i]
            && head[i] <= '\u{7f}' by {
            assert(head[i] == s[i]);
        }
        lemma_sanitized_ascii(head);
        assert(s[s.len() - 1] <= '\u{7f}');
        let tail = neutralized(s.last());
        assert forall|i: int| 0 <= i < sanitized(s).len() implies '\0' <= #[trigger] sanitized(s)[i]
            && sanitized(s)[i] <= '\u{7f}' by {
            if i < sanitized(head).len() {
                assert(sanitized(s)[i] == sanitized(head)[i]);
            } else {
                assert(sanitized(s)[i] == tail[i - sanitized(head).len()]);
            }
        }
    }
}

/// Cleaning an ASCII name leaves it ASCII.
proof fn lemma_cleaned_ascii(name: Seq<char>)
    requires
        vstd::utf8::is_ascii_chars(name),
    ensures
        vstd::utf8::is_ascii_chars(cleaned_name(name)),
{
    lemma_sanitized_ascii(name);
    lemma_trimmed_is_prefix(sanitized(name));
    let cleaned = cleaned_name(name);
    assert forall|i: int| 0 <= i < cleaned.len() implies '\0' <= #[trigger] cleaned[i]
        && cleaned[i] <= '\u{7f}' by {
        assert(cleaned[i] == sanitized(name)[i]);
    }
}

proof fn lemma_sanitized_lower(s: Seq<char>)
    ensures
        sanitized(ascii_lower(s)) == ascii_lower(sanitized(s)),
    decreases s.len(),
{
    let low = ascii_lower(s);
    if s.len() == 0 {
        assert(ascii_lower(sanitized(s)) =~= Seq::<char>::empty());
    } else {
        lemma_sanitized_lower(s.drop_last());
        assert(low.drop_last() =~= ascii_lower(s.drop_last()));
        assert(low.last() == ascii_lower_char(s.last()));
        assert(neutralized(low.last()) =~= ascii_lower(neutralized(s.last())));
        assert(ascii_lower(sanitized(s)) =~= ascii_lower(sanitized(s.drop_last())) + ascii_lower(
            neutralized(s.last()),
        ));
    }
}

proof fn lemma_trimmed_lower(s: Seq<char>)
    ensures
        trimmed_end(ascii_lower(s)) == ascii_lower(trimmed_end(s)),
    decreases s.len(),
{
    let low = ascii_lower(s);
    if s.len() > 0 {
        assert(low.last() == ascii_lower_char(s.last()));
        assert(low.drop_last() =~= ascii_lower(s.drop_last()));
        if is_white_space(s.last()) {
            lemma_trimmed_lower(s.drop_last());
        }
    }
}

/// An address with a name is shown as the name, a blank and the address in
/// angle brackets; one without a name, or with an empty one, as the bare
/// address.
pub proof fn law_address_is_shown_with_its_name(a: AddressView)
    ensures
        a.name is None ==> address_text(a) == a.email,
        a.name matches Some(name) ==> address_text(a) == if name.len() == 0 {
            a.email
        } else {
            name.push(' ').push('<') + a.email.push('>')
        },
{
    reveal_strlit(" <");
    reveal_strlit(">");
    if let Some(name) = a.name {
        if name.len() > 0 {
            assert(address_text(a) =~= name.push(' ').push('<') + a.email.push('>'));
        }
    }
}

/// The header view of a message that nobody sent to nobody: the four header
/// fields in order, each on a line of its own, and an empty line.
pub proof fn law_header_without_addresses(email: EmailView, uid: u32)
    requires
        email.from.len() == 0,
        email.to.len() == 0,
    ensures
        email.subject matches Some(subject) ==> header_text(email, uid)
            == "From: \r\nTo: \r\nSubject: "@ + subject + "\r\nX-Sync-UID: "@ + decimal(uid as nat)
            + "\r\n\r\n"@,
        email.subject is None ==> header_text(email, uid)
            == "From: \r\nTo: \r\nSubject: \r\nX-Sync-UID: "@ + decimal(uid as nat) + "\r\n\r\n"@,
{
    reveal_strlit("From: \r\nTo: \r\nSubject: ");
    reveal_strlit("From: \r\nTo: \r\nSubject: \r\nX-Sync-UID: ");
    reveal_strlit("From: ");
    reveal_strlit("\r\nTo: ");
    reveal_strlit("\r\nSubject: ");
    reveal_strlit("\r\nX-Sync-UID: ");
    assert("From: \r\nTo: \r\nSubject: "@ =~= "From: "@ + "\r\nTo: "@ + "\r\nSubject: "@);
    assert("From: \r\nTo: \r\nSubject: \r\nX-Sync-UID: "@ =~= "From: \r\nTo: \r\nSubject: "@
        + "\r\nX-Sync-UID: "@);
    assert(addresses_text(email.from) =~= Seq::<char>::empty());
    assert(addresses_text(email.to) =~= Seq::<char>::empty());
    assert("From: "@ + addresses_text(email.from) =~= "From: "@);
    let start = "From: "@ + "\r\nTo: "@;
    assert(start + addresses_text(email.to) =~= start);
    if email.subject is None {
        let line = "From: \r\nTo: \r\nSubject: "@;
        assert(line + Seq::<char>::empty() =~= line);
    }
}

/// One more recipient adds its address to the end of the `To` line, behind a
/// comma and a blank where there is one already, and changes nothing else.
pub proof fn law_header_gains_each_recipient(email: EmailView, a: AddressView, uid: u32)
    ensures
        ({
            let subject = match email.subject {
                Some(s) => s,
                None => Seq::empty(),
            };
            let tail = "\r\nSubject: "@ + subject + "\r\nX-Sync-UID: "@ + decimal(uid as nat)
                + "\r\n\r\n"@;
            let before = header_text(email, uid);
            let after = header_text(EmailView { to: email.to.push(a), ..email }, uid);
            let head = before.take(before.len() - tail.len());
            &&& before == head + tail
            &&& after == if email.to.len() == 0 {
                head + address_text(a) + tail
            } else {
                head + ", "@ + address_text(a) + tail
            }
        }),
{
    let subject = match email.subject {
        Some(s) => s,
        None => Seq::empty(),
    };
    let tail = "\r\nSubject: "@ + subject + "\r\nX-Sync-UID: "@ + decimal(uid as nat)
        + "\r\n\r\n"@;
    let before = header_text(email, uid);
    let longer = EmailView { to: email.to.push(a), ..email };
    let start = "From: "@ + addresses_text(email.from) + "\r\nTo: "@;
    lemma_end_of_header(start + addresses_text(email.to), subject, uid);
    lemma_end_of_header(start + addresses_text(longer.to), subject, uid);
    let head = before.take(before.len() - tail.len());
    assert(head =~= start + addresses_text(email.to));
    lemma_one_more_address(email.to, a);
    if email.to.len() > 0 {
        lemma_regroup(start, addresses_text(email.to) + ", "@, address_text(a));
        lemma_regroup(start, addresses_text(email.to), ", "@);
    } else {
        assert(addresses_text(email.to) =~= Seq::<char>::empty());
        assert(head =~= start);
    }
}

/// One more sender adds its address to the end of the `From` line, behind a
/// comma and a blank where there is one already, and changes nothing else.
pub proof fn law_header_gains_each_sender(email: EmailView, a: AddressView, uid: u32)
    ensures
        ({
            let tail = header_text(EmailView { from: Seq::empty(), ..email }, uid).skip(6);
            let before = header_text(email, uid);
            let after = header_text(EmailView { from: email.from.push(a), ..email }, uid);
            let head = before.take(before.len() - tail.len());
            &&& before == head + tail
            &&& after == if email.from.len() == 0 {
                head + address_text(a) + tail
            } else {
                head + ", "@ + address_text(a) + tail
            }
        }),
{
    reveal_strlit("From: ");
    let silent = EmailView { from: Seq::empty(), ..email };
    let longer = EmailView { from: email.from.push(a), ..email };
    let subject = match email.subject {
        Some(s) => s,
        None => Seq::empty(),
    };
    let to = addresses_text(email.to);
    let end = "\r\nSubject: "@ + subject + "\r\nX-Sync-UID: "@ + decimal(uid as nat)
        + "\r\n\r\n"@;
    let rest = "\r\nTo: "@ + to + end;
    let before = header_text(email, uid);
    lemma_header_behind_senders(email, subject, uid);
    lemma_header_behind_senders(silent, subject, uid);
    lemma_header_behind_senders(longer, subject, uid);
    let line = "From: "@ + addresses_text(email.from);
    assert(addresses_text(silent.from) =~= Seq::<char>::empty());
    assert("From: "@ + addresses_text(silent.from) =~= "From: "@);
    let tail = header_text(silent, uid).skip(6);
    assert(tail =~= rest);
    let head = before.take(before.len() - tail.len());
    assert(head =~= line);
    lemma_one_more_address(email.from, a);
    if email.from.len() > 0 {
        lemma_regroup("From: "@, addresses_text(email.from) + ", "@, address_text(a));
        lemma_regroup("From: "@, addresses_text(email.from), ", "@);
    } else {
        assert(addresses_text(email.from) =~= Seq::<char>::empty());
        assert(line =~= "From: "@);
    }
}

proof fn lemma_regroup(a: Seq<char>, b: Seq<char>, c: Seq<char>)
    ensures
        a + b + c == a + (b + c),
{
    assert(a + b + c =~= a + (b + c));
}

/// The lines behind the `To` line.
proof fn lemma_end_of_header(head: Seq<char>, subject: Seq<char>, uid: u32)
    ensures
        head + "\r\nSubject: "@ + subject + "\r\nX-Sync-UID: "@ + decimal(uid as nat)
            + "\r\n\r\n"@ == head + ("\r\nSubject: "@ + subject + "\r\nX-Sync-UID: "@ + decimal(
            uid as nat,
        ) + "\r\n\r\n"@),
{
    let line = "\r\nSubject: "@ + subject;
    let named = line + "\r\nX-Sync-UID: "@;
    let told = named + decimal(uid as nat);
    lemma_regroup(head, "\r\nSubject: "@, subject);
    lemma_regroup(head, line, "\r\nX-Sync-UID: "@);
    lemma_regroup(head, named, decimal(uid as nat));
    lemma_regroup(head, told, "\r\n\r\n"@);
}

/// The lines behind the `From` line.
proof fn lemma_header_behind_senders(email: EmailView, subject: Seq<char>, uid: u32)
    requires
        subject == match email.subject {
            Some(s) => s,
            None => Seq::empty(),
        },
    ensures
        header_text(email, uid) == "From: "@ + addresses_text(email.from) + ("\r\nTo: "@
            + addresses_text(email.to) + ("\r\nSubject: "@ + subject + "\r\nX-Sync-UID: "@
            + decimal(uid as nat) + "\r\n\r\n"@)),
{
    let line = "From: "@ + addresses_text(email.from);
    let to = addresses_text(email.to);
    let end = "\r\nSubject: "@ + subject + "\r\nX-Sync-UID: "@ + decimal(uid as nat)
        + "\r\n\r\n"@;
    lemma_end_of_header(line + "\r\nTo: "@ + to, subject, uid);
    lemma_regroup(line, "\r\nTo: "@, to);
    lemma_regroup(line, "\r\nTo: "@ + to, end);
}

proof fn lemma_one_more_address(list: Seq<AddressView>, a: AddressView)
    ensures
        addresses_text(list.push(a)) == if list.len() == 0 {
            address_text(a)
        } else {
            addresses_text(list) + ", "@ + address_text(a)
        },
{
    let shown = list.map_values(|a: AddressView| address_text(a));
    let longer = list.push(a).map_values(|a: AddressView| address_text(a));
    assert(longer =~= shown.push(address_text(a)));
    assert(longer.drop_last() =~= shown);
}

/// The `To` line holds every recipient, in order: there are as many places
/// in it as recipients, the first behind `To: `, the last before the line
/// end in front of `Subject: `, neighbours parted by a comma and a blank, and
/// each place holds the header form of its recipient.
pub proof fn law_to_line_holds_every_recipient(email: EmailView, uid: u32) -> (places: Seq<
    (int, int),
>)
    requires
        email.to.len() > 0,
    ensures
        places.len() == email.to.len(),
        ({
            let text = header_text(email, uid);
            &&& forall|i: int|
                0 <= i < places.len() ==> 0 <= (#[trigger] places[i]).0 <= places[i].1
                    <= text.len() && text.subrange(places[i].0, places[i].1) == address_text(
                    email.to[i],
                )
            &&& forall|i: int, j: int|
                0 <= i && j == i + 1 && j < places.len() ==> (#[trigger] places[i]).1 + 2 == (
                #[trigger] places[j]).0 && text.subrange(places[i].1, places[j].0) == ", "@
            &&& "\r\nTo: "@ == text.subrange(places[0].0 - 6, places[0].0)
            &&& places.last().1 + 11 <= text.len()
            &&& "\r\nSubject: "@ == text.subrange(places.last().1, places.last().1 + 11)
        }),
{
    reveal_strlit("\r\nTo: ");
    reveal_strlit("\r\nSubject: ");
    let subject = match email.subject {
        Some(s) => s,
        None => Seq::empty(),
    };
    let rest = subject + "\r\nX-Sync-UID: "@ + decimal(uid as nat) + "\r\n\r\n"@;
    let start = "From: "@ + addresses_text(email.from) + "\r\nTo: "@;
    let line = addresses_text(email.to);
    let text = header_text(email, uid);
    lemma_end_of_header(start + line, subject, uid);
    let end = "\r\nSubject: "@ + subject + "\r\nX-Sync-UID: "@ + decimal(uid as nat)
        + "\r\n\r\n"@;
    assert(text == start + line + end);
    assert(end =~= "\r\nSubject: "@ + rest);
    let inner = lemma_places_of_addresses(email.to);
    let k = start.len() as int;
    let places = Seq::new(inner.len(), |i: int| (inner[i].0 + k, inner[i].1 + k));
    assert forall|i: int| 0 <= i < places.len() implies 0 <= (#[trigger] places[i]).0
        <= places[i].1 <= text.len() && text.subrange(places[i].0, places[i].1) == address_text(
        email.to[i],
    ) by {
        assert(0 <= inner[i].0 <= inner[i].1 <= line.len());
        assert(text.subrange(places[i].0, places[i].1) =~= line.subrange(inner[i].0, inner[i].1));
    }
    assert forall|i: int, j: int|
        0 <= i && j == i + 1 && j < places.len() implies (#[trigger] places[i]).1 + 2 == (
    #[trigger] places[j]).0 && text.subrange(places[i].1, places[j].0) == ", "@ by {
        assert(inner[i].1 + 2 == inner[j].0);
        assert(0 <= inner[j].0 <= inner[j].1 <= line.len());
        assert(0 <= inner[i].0 <= inner[i].1);
        assert(text.subrange(places[i].1, places[j].0) =~= line.subrange(inner[i].1, inner[j].0));
    }
    assert(text.subrange(k - 6, k) =~= "\r\nTo: "@);
    let stop = k + line.len();
    assert(text.subrange(stop, stop + 11) =~= "\r\nSubject: "@);
    places
}

/// Where each address stands in a list of addresses.
proof fn lemma_places_of_addresses(list: Seq<AddressView>) -> (places: Seq<(int, int)>)
    requires
        list.len() > 0,
    ensures
        places.len() == list.len(),
        ({
            let line = addresses_text(list);
            &&& forall|i: int|
                0 <= i < places.len() ==> 0 <= (#[trigger] places[i]).0 <= places[i].1
                    <= line.len() && line.subrange(places[i].0, places[i].1) == address_text(
                    list[i],
                )
            &&& forall|i: int, j: int|
                0 <= i && j == i + 1 && j < places.len() ==> (#[trigger] places[i]).1 + 2 == (
                #[trigger] places[j]).0 && line.subrange(places[i].1, places[j].0) == ", "@
            &&& places[0].0 == 0
            &&& places.last().1 == line.len()
        }),
    decreases list.len(),
{
    reveal_strlit(", ");
    let fewer = list.drop_last();
    let a = list.last();
    assert(fewer.push(a) =~= list);
    lemma_one_more_address(fewer, a);
    let line = addresses_text(list);
    let end = line.len() as int;
    let from = end - address_text(a).len();
    assert(line.subrange(from, end) =~= address_text(a));
    if fewer.len() == 0 {
        seq![(from, end)]
    } else {
        let before = lemma_places_of_addresses(fewer);
        let shorter = addresses_text(fewer);
        let places = before.push((from, end));
        assert forall|i: int| 0 <= i < places.len() implies 0 <= (#[trigger] places[i]).0
            <= places[i].1 <= line.len() && line.subrange(places[i].0, places[i].1)
            == address_text(list[i]) by {
            if i < before.len() {
                assert(places[i] == before[i]);
                assert(line.subrange(places[i].0, places[i].1) =~= shorter.subrange(
                    before[i].0,
                    before[i].1,
                ));
                assert(list[i] == fewer[i]);
            }
        }
        assert forall|i: int, j: int|
            0 <= i && j == i + 1 && j < places.len() implies (#[trigger] places[i]).1 + 2 == (
        #[trigger] places[j]).0 && line.subrange(places[i].1, places[j].0) == ", "@ by {
            assert(places[i] == before[i]);
            if j < before.len() {
                assert(places[j] == before[j]);
                assert(0 <= before[j].0 <= before[j].1 <= shorter.len());
                assert(0 <= before[i].0 <= before[i].1);
                assert(line.subrange(places[i].1, places[j].0) =~= shorter.subrange(
                    before[i].1,
                    before[j].0,
                ));
            } else {
                assert(line.subrange(places[i].1, places[j].0) =~= ", "@);
            }
        }
        places
    }
}

/// What decides the role of a last segment in lower case: each role belongs
/// to the names listed here and to no other, and every other segment has no
/// role.
pub proof fn law_segment_roles_are_the_listed_ones(last: Seq<char>)
    ensures
        segment_role(last) == Some(FolderRole::Inbox) <==> last == "inbox"@,
        segment_role(last) == Some(FolderRole::Sent) <==> last == "sent"@ || (last.len() >= 13
            && last.take(13) == "sent messages"@),
        segment_role(last) == Some(FolderRole::Drafts) <==> last == "drafts"@,
        segment_role(last) == Some(FolderRole::Trash) <==> last == "trash"@ || last
            == "deleted messages"@,
        segment_role(last) == Some(FolderRole::Junk) <==> last == "junk"@ || last == "spam"@,
        segment_role(last) == Some(FolderRole::Archive) <==> last == "archive"@ || last
            == "all mail"@,
        segment_role(last) is None <==> last != "inbox"@ && last != "sent"@ && !(last.len() >= 13
            && last.take(13) == "sent messages"@) && last != "drafts"@ && last != "trash"@ && last
            != "deleted messages"@ && last != "junk"@ && last != "spam"@ && last != "archive"@
            && last != "all mail"@,
{
    reveal_strlit("inbox");
    reveal_strlit("sent");
    reveal_strlit("sent messages");
    reveal_strlit("drafts");
    reveal_strlit("trash");
    reveal_strlit("deleted messages");
    reveal_strlit("junk");
    reveal_strlit("spam");
    reveal_strlit("archive");
    reveal_strlit("all mail");
    assert("inbox"@[0] == 'i');
    assert("sent"@[0] == 's');
    assert("sent messages"@[0] == 's');
    assert("drafts"@[0] == 'd');
    assert("trash"@[0] == 't');
    assert("deleted messages"@[0] == 'd');
    assert("junk"@[0] == 'j');
    assert("spam"@[0] == 's');
    assert("archive"@[0] == 'a');
    assert("all mail"@[0] == 'a');
    assert(last.len() >= 13 ==> (last.take(13) == "sent messages"@
        <==> "sent messages"@.is_prefix_of(last)));
    if last.len() >= 13 && last.take(13) == "sent messages"@ {
        assert(last[0] == last.take(13)[0]);
    }
    assert("sent"@.len() == 4);
    assert("spam"@[1] == 'p');
    assert("sent"@[1] == 'e');
    assert("archive"@[1] == 'r');
    assert("all mail"@[1] == 'l');
    assert("drafts"@[1] == 'r');
    assert("deleted messages"@[1] == 'e');
}

/// The role of a mailbox: the inbox is the mailbox whose sanitized and
/// trimmed name is blank or ends in the segment `inbox`, in lower case; every
/// other role, and having none, goes by the last segment alone.
pub proof fn law_role_goes_by_the_last_segment(name: Seq<char>)
    ensures
        ({
            let cleaned = trimmed_end(sanitized(name));
            let last = lowercased(ascii_lower(last_segment(cleaned)));
            let begins_sent = last.len() >= 13 && last.take(13) == "sent messages"@;
            let role = jmap_role(name);
            &&& role == Some(FolderRole::Inbox) <==> cleaned.len() == 0 || last == "inbox"@
            &&& role == Some(FolderRole::Sent) <==> cleaned.len() > 0 && (last == "sent"@
                || begins_sent)
            &&& role == Some(FolderRole::Drafts) <==> cleaned.len() > 0 && last == "drafts"@
            &&& role == Some(FolderRole::Trash) <==> cleaned.len() > 0 && (last == "trash"@ || last
                == "deleted messages"@)
            &&& role == Some(FolderRole::Junk) <==> cleaned.len() > 0 && (last == "junk"@ || last
                == "spam"@)
            &&& role == Some(FolderRole::Archive) <==> cleaned.len() > 0 && (last == "archive"@
                || last == "all mail"@)
            &&& role is None <==> cleaned.len() > 0 && last != "inbox"@ && last != "sent"@
                && !begins_sent && last != "drafts"@ && last != "trash"@ && last
                != "deleted messages"@ && last != "junk"@ && last != "spam"@ && last
                != "archive"@ && last != "all mail"@
        }),
{
    let cleaned = trimmed_end(sanitized(name));
    law_segment_roles_are_the_listed_ones(lowercased(ascii_lower(last_segment(cleaned))));
}

/// The same of a name in ASCII, whose last segment is folded letter by
/// letter.
pub proof fn law_ascii_role_goes_by_the_last_segment(name: Seq<char>)
    ensures
        ({
            let cleaned = trimmed_end(sanitized(name));
            let last = ascii_lower(last_segment(cleaned));
            let begins_sent = last.len() >= 13 && last.take(13) == "sent messages"@;
            let role = ascii_role(name);
            &&& role == Some(FolderRole::Inbox) <==> cleaned.len() == 0 || last == "inbox"@
            &&& role == Some(FolderRole::Sent) <==> cleaned.len() > 0 && (last == "sent"@
                || begins_sent)
            &&& role == Some(FolderRole::Drafts) <==> cleaned.len() > 0 && last == "drafts"@
            &&& role == Some(FolderRole::Trash) <==> cleaned.len() > 0 && (last == "trash"@ || last
                == "deleted messages"@)
            &&& role == Some(FolderRole::Junk) <==> cleaned.len() > 0 && (last == "junk"@ || last
                == "spam"@)
            &&& role == Some(FolderRole::Archive) <==> cleaned.len() > 0 && (last == "archive"@
                || last == "all mail"@)
            &&& role is None <==> cleaned.len() > 0 && last != "inbox"@ && last != "sent"@
                && !begins_sent && last != "drafts"@ && last != "trash"@ && last
                != "deleted messages"@ && last != "junk"@ && last != "spam"@ && last
                != "archive"@ && last != "all mail"@
        }),
{
    let cleaned = trimmed_end(sanitized(name));
    law_segment_roles_are_the_listed_ones(ascii_lower(last_segment(cleaned)));
}

/// The last segment is the end of the name: it holds no slash and no full
/// stop, and one of them stands right before it, unless it is the whole name.
pub proof fn law_last_segment_follows_the_last_separator(name: Seq<char>)
    ensures
        ({
            let s = last_segment(name);
            let from = name.len() - s.len();
            &&& 0 <= from
            &&& forall|i: int| 0 <= i < s.len() ==> #[trigger] s[i] == name[from + i]
            &&& forall|i: int| 0 <= i < s.len() ==> #[trigger] s[i] != '/' && s[i] != '.'
            &&& from > 0 ==> name[from - 1] == '/' || name[from - 1] == '.'
        }),
    decreases name.len(),
{
    if name.len() > 0 && !is_separator(name.last()) {
        let head = name.drop_last();
        law_last_segment_follows_the_last_separator(head);
        let t = last_segment(head);
        let s = last_segment(name);
        let from = name.len() - s.len();
        assert(s =~= t.push(name.last()));
        assert forall|i: int| 0 <= i < s.len() implies #[trigger] s[i] == name[from + i] by {
            if i < t.len() {
                assert(s[i] == t[i]);
            }
        }
        assert forall|i: int| 0 <= i < s.len() implies #[trigger] s[i] != '/' && s[i] != '.' by {
            if i < t.len() {
                assert(s[i] == t[i]);
            }
        }
    }
}

/// The first response that is no array, or that belongs to the method and
/// carries a result, decides; without one there is no list.
pub proof fn law_first_response_decides(
    responses: Seq<JsonView>,
    method: Seq<char>,
    result: JsonView,
    more: Seq<JsonView>,
    i: int,
)
    requires
        0 <= i <= responses.len(),
        forall|j: int|
            0 <= j < i ==> match #[trigger] responses[j] {
                JsonView::Array(parts) => parts.len() < 2 || parts[0] != JsonView::Text(method),
                _ => false,
            },
    ensures
        i == responses.len() ==> method_list(responses, method) == Ok::<
            Option<Seq<JsonView>>,
            ResponseFault,
        >(None),
        i < responses.len() && !(responses[i] is Array) ==> method_list(responses, method) == Err::<
            Option<Seq<JsonView>>,
            ResponseFault,
        >(ResponseFault::NotAnArray),
        i < responses.len() && responses[i] == JsonView::Array(
            seq![JsonView::Text(method), result] + more,
        ) ==> match result.get("list"@) {
            Some(JsonView::Array(items)) => method_list(responses, method) == Ok::<
                Option<Seq<JsonView>>,
                ResponseFault,
            >(Some(items)),
            _ => method_list(responses, method) == Err::<Option<Seq<JsonView>>, ResponseFault>(
                ResponseFault::MissingList,
            ),
        },
{
    let before = responses.take(i);
    let rest = responses.skip(i);
    assert(responses =~= before + rest);
    assert forall|j: int| 0 <= j < before.len() implies is_other_response(
        #[trigger] before[j],
        method,
    ) by {
        assert(before[j] == responses[j]);
    }
    law_other_responses_are_passed_over(before, rest, method);
    if i < responses.len() {
        assert(rest[0] == responses[i]);
        let parts = seq![JsonView::Text(method), result] + more;
        assert(parts.len() >= 2);
        assert(parts[0] == JsonView::Text(method));
        assert(parts[1] == result);
    }
}

/// What a faulty response is called: the method, a colon and the fault.
pub proof fn law_faults_name_the_method(method: Seq<char>)
    ensures
        fault_error(method, ResponseFault::NotAnArray) == SyncErrorView::Protocol(
            method + ": not an array"@,
        ),
        fault_error(method, ResponseFault::MissingList) == SyncErrorView::Protocol(
            method + ": missing list"@,
        ),
{
}

/// What is read of a mailbox: the strings called `name`, `role` and `id`;
/// where one of them is missing or no string, the name and the id are empty
/// and there is no role.
pub proof fn law_mailbox_is_read_by_member(v: JsonView)
    ensures
        mailbox_of(v).name == match v.get("name"@) {
            Some(JsonView::Text(t)) => t,
            _ => Seq::empty(),
        },
        mailbox_of(v).role == match v.get("role"@) {
            Some(JsonView::Text(t)) => Some(t),
            _ => None::<Seq<char>>,
        },
        mailbox_of(v).id == match v.get("id"@) {
            Some(JsonView::Text(t)) => t,
            _ => Seq::empty(),
        },
{
}

/// A mailbox with a role is stored with one attribute, `role:` and the role;
/// one without has none.
pub proof fn law_role_attribute(role: Seq<char>)
    ensures
        role_attributes(None).len() == 0,
        role_attributes(Some(role)).len() == 1,
        role_attributes(Some(role))[0] == "role:"@ + role,
{
}

/// What is read of a message: strings, addresses, a size and member names,
/// each from the member of its own name.
pub proof fn law_message_is_read_by_member(v: JsonView)
    ensures
        email_of(v).id == match v.get("id"@) {
            Some(JsonView::Text(t)) => t,
            _ => Seq::empty(),
        },
        email_of(v).subject == match v.get("subject"@) {
            Some(JsonView::Text(t)) => Some(t),
            _ => None::<Seq<char>>,
        },
        email_of(v).received_at == match v.get("receivedAt"@) {
            Some(JsonView::Text(t)) => Some(t),
            _ => None::<Seq<char>>,
        },
        email_of(v).size == match v.get("size"@) {
            Some(JsonView::Unsigned(n)) => Some(n),
            _ => None::<u64>,
        },
        email_of(v).from == address_list(v.get("from"@)),
        email_of(v).to == address_list(v.get("to"@)),
        match v.get("keywords"@) {
            Some(JsonView::Object(members)) => {
                &&& email_of(v).keywords.len() == members.len()
                &&& forall|i: int|
                    0 <= i < members.len() ==> #[trigger] email_of(v).keywords[i] == members[i].0
            },
            _ => email_of(v).keywords.len() == 0,
        },
        match v.get("mailboxIds"@) {
            Some(JsonView::Object(members)) => {
                &&& email_of(v).mailbox_ids.len() == members.len()
                &&& forall|i: int|
                    0 <= i < members.len() ==> #[trigger] email_of(v).mailbox_ids[i]
                        == members[i].0
            },
            _ => email_of(v).mailbox_ids.len() == 0,
        },
{
}

/// One more entry of an address list adds one more address to the end, if
/// the entry has an `email` string, with its `name` string where it has one;
/// any other entry adds nothing. What is no array holds no address.
pub proof fn law_address_list_grows_by_entry(entries: Seq<JsonView>, entry: JsonView, v: JsonView)
    ensures
        address_list(None).len() == 0,
        !(v is Array) ==> address_list(Some(v)).len() == 0,
        address_list(Some(JsonView::Array(Seq::empty()))).len() == 0,
        address_list(Some(JsonView::Array(entries.push(entry)))) == match entry.get("email"@) {
            Some(JsonView::Text(email)) => address_list(Some(JsonView::Array(entries))).push(
                AddressView {
                    name: match entry.get("name"@) {
                        Some(JsonView::Text(name)) => Some(name),
                        _ => None,
                    },
                    email,
                },
            ),
            _ => address_list(Some(JsonView::Array(entries))),
        },
{
    let longer = entries.push(entry);
    assert(longer.drop_last() =~= entries);
    assert(longer.last() == entry);
}

/// A UID is one more than the rest of the hash of the JMAP id by 2^32 - 1:
/// every UID from 1 to 2^32 - 1 is the UID of some hash, and no other number.
pub proof fn law_uid_is_the_hash_folded(id: Seq<char>, hash: u64, uid: u32)
    ensures
        uid_for_hash(id_hash(id)) as int == DefaultHasher::spec_finish(hash_writes(id))
            % 0xffff_ffff + 1,
        uid_for_hash(hash) as int - 1 == hash as int % 0xffff_ffff,
        1 <= uid_for_hash(hash) <= 0xffff_ffff,
        uid >= 1 ==> uid_for_hash((uid - 1) as u64) == uid,
        hash + 0xffff_ffff <= u64::MAX ==> uid_for_hash((hash + 0xffff_ffff) as u64)
            == uid_for_hash(hash),
{
}

/// A message is stored under the time that it states, and under `now` alone
/// where it states none or none that can be read.
pub proof fn law_stated_time_goes_before_the_clock(text: Seq<char>, ms: i64, now: i64)
    ensures
        rfc3339_millis(text) == Some(ms) ==> time_or(stated_time(Some(text)), now) == ms,
        rfc3339_millis(text) is None ==> time_or(stated_time(Some(text)), now) == now,
        time_or(stated_time(None), now) == now,
{
}

/// The flags come in one order: seen, answered, flagged, draft.
pub proof fn law_flags_come_in_order(keywords: Seq<Seq<char>>, i: int, j: int)
    requires
        0 <= i < j < flags_of(keywords).len(),
    ensures
        flags_of(keywords)[j] != Flag::Seen,
        flags_of(keywords)[i] != Flag::Draft,
        !(flags_of(keywords)[i] == Flag::Flagged && flags_of(keywords)[j] == Flag::Answered),
{
}

/// What a mailbox, an address and a message are seen as: their own fields.
pub proof fn law_parsed_values_keep_their_fields(
    mailbox: ParsedMailbox,
    address: ParsedAddress,
    email: ParsedEmail,
)
    ensures
        mailbox@.name == mailbox.name@,
        mailbox@.id == mailbox.id@,
        mailbox@.role is Some <==> mailbox.role is Some,
        mailbox.role matches Some(role) ==> mailbox@.role == Some(role@),
        address@.email == address.email@,
        address@.name is Some <==> address.name is Some,
        address.name matches Some(name) ==> address@.name == Some(name@),
        email@.id == email.id@,
        email@.size == email.size,
        email@.subject is Some <==> email.subject is Some,
        email.subject matches Some(subject) ==> email@.subject == Some(subject@),
        email@.received_at is Some <==> email.received_at is Some,
        email.received_at matches Some(text) ==> email@.received_at == Some(text@),
        email@.from.len() == email.from@.len(),
        forall|i: int|
            0 <= i < email.from@.len() ==> #[trigger] email@.from[i] == email.from@[i]@,
        email@.to.len() == email.to@.len(),
        forall|i: int| 0 <= i < email.to@.len() ==> #[trigger] email@.to[i] == email.to@[i]@,
        email@.keywords.len() == email.keywords@.len(),
        forall|i: int|
            0 <= i < email.keywords@.len() ==> #[trigger] email@.keywords[i]
                == email.keywords@[i]@,
        email@.mailbox_ids.len() == email.mailbox_ids@.len(),
        forall|i: int|
            0 <= i < email.mailbox_ids@.len() ==> #[trigger] email@.mailbox_ids[i]
                == email.mailbox_ids@[i]@,
{
}

/// Lists of mailboxes, addresses and messages are seen item by item, in
/// order.
pub proof fn law_parsed_lists_are_seen_in_order(
    mailboxes: Seq<ParsedMailbox>,
    addresses: Seq<ParsedAddress>,
    emails: Seq<ParsedEmail>,
)
    ensures
        mailbox_views(mailboxes).len() == mailboxes.len(),
        forall|i: int|
            0 <= i < mailboxes.len() ==> #[trigger] mailbox_views(mailboxes)[i] == mailboxes[i]@,
        address_views(addresses).len() == addresses.len(),
        forall|i: int|
            0 <= i < addresses.len() ==> #[trigger] address_views(addresses)[i] == addresses[i]@,
        email_views(emails).len() == emails.len(),
        forall|i: int| 0 <= i < emails.len() ==> #[trigger] email_views(emails)[i] == emails[i]@,
{
}

}
