//! From parsed JMAP messages to an ingestion batch for one folder.

use vstd::prelude::*;
use vstd::std_specs::hash::DefaultHasherAdditionalSpecFns;

use crate::clock::SyncClock;
use crate::jmap_parse::{
    email_views, flags_of, hash_writes, header_text, id_hash, law_flags_follow_keywords,
    rfc3339_millis, stated_time, uid_for_hash, EmailView, ParsedEmail,
};
use crate::model::{Flag, FolderId};
use crate::store::{IngestBatch, IngestMessage};

verus! {

/// The UID under which a message is stored.
pub open spec fn email_uid(email: EmailView) -> u32 {
    uid_for_hash(id_hash(email.id))
}

/// Whether `date` is the time under which `email` is stored: the one that the
/// message states, or else one that the clock shows.
pub open spec fn dated<C: SyncClock + ?Sized>(email: EmailView, clock: &C, date: i64) -> bool {
    match stated_time(email.received_at) {
        Some(ms) => date == ms,
        None => call_ensures(C::now_unix_ms, (clock,), date),
    }
}

/// Whether `parsed` is what the host's parser makes of the header view of
/// `email`.
pub open spec fn parsed_from<P, F: Fn(&[u8]) -> P>(email: EmailView, parse: F, parsed: P) -> bool {
    exists|head: &[u8]|
        head@ == vstd::utf8::encode_utf8(header_text(email, email_uid(email))) && call_ensures(
            parse,
            (head,),
            parsed,
        )
}

/// Whether `message` is what is stored in `folder` for `email`.
pub open spec fn stores<P, F: Fn(&[u8]) -> P, C: SyncClock + ?Sized>(
    message: IngestMessage<P>,
    email: EmailView,
    folder: FolderId,
    parse: F,
    clock: &C,
) -> bool {
    &&& message.folder == folder
    &&& message.uid == email_uid(email)
    &&& dated(email, clock, message.internal_date)
    &&& message.flags@ == flags_of(email.keywords)
    &&& parsed_from(email, parse, message.parsed)
    &&& message.raw_blob is None
    &&& message.raw_size == match email.size {
        Some(size) => size,
        None => 0,
    }
}

/// Whether `batch` stores `emails` in `folder`, one message each, in order.
pub open spec fn batch_stores<P, F: Fn(&[u8]) -> P, C: SyncClock + ?Sized>(
    batch: IngestBatch<P>,
    emails: Seq<EmailView>,
    folder: FolderId,
    parse: F,
    clock: &C,
) -> bool {
    &&& batch.messages@.len() == emails.len()
    &&& forall|i: int|
        0 <= i < emails.len() ==> stores(
            #[trigger] batch.messages@[i],
            emails[i],
            folder,
            parse,
            clock,
        )
}

/// What is stored in `folder` for one message.
pub fn ingest_message<P, F: Fn(&[u8]) -> P, C: SyncClock + ?Sized>(
    folder: FolderId,
    email: &ParsedEmail,
    parse: &F,
    clock: &C,
) -> (r: IngestMessage<P>)
    requires
        forall|head: &[u8]| #[trigger] call_requires(*parse, (head,)),
    ensures
        stores(r, email@, folder, *parse, clock),
{
    let uid = email.jmap_id_hash();
    let internal_date = email.received_at_ms(clock);
    let flags = email.flags();
    let raw_size: u64 = match email.size {
        Some(size) => size,
        None => 0,
    };
    // Reconstruct a header-only view for the parse pipeline.
    let raw_head = email.to_header(uid);
    let bytes = raw_head.as_str().as_bytes();
    let parsed = parse(bytes);
    assert(bytes@ == vstd::utf8::encode_utf8(header_text(email@, email_uid(email@))));
    assert(parsed_from(email@, *parse, parsed));
    IngestMessage { folder, uid, internal_date, flags, parsed, raw_blob: None, raw_size }
}

/// The batch that stores `emails` in `folder`.
pub fn ingest_batch<P, F: Fn(&[u8]) -> P, C: SyncClock + ?Sized>(
    folder: FolderId,
    emails: &Vec<ParsedEmail>,
    parse: &F,
    clock: &C,
) -> (r: IngestBatch<P>)
    requires
        forall|head: &[u8]| #[trigger] call_requires(*parse, (head,)),
    ensures
        batch_stores(r, email_views(emails@), folder, *parse, clock),
{
    let mut messages: Vec<IngestMessage<P>> = Vec::new();
    let mut i: usize = 0;
    while i < emails.len()
        invariant
            i <= emails@.len(),
            messages@.len() == i,
            forall|head: &[u8]| #[trigger] call_requires(*parse, (head,)),
            forall|j: int|
                0 <= j < i ==> stores(
                    #[trigger] messages@[j],
                    emails@[j]@,
                    folder,
                    *parse,
                    clock,
                ),
        decreases emails@.len() - i,
    {
        messages.push(ingest_message(folder, &emails[i], parse, clock));
        i += 1;
    }
    IngestBatch { messages }
}

/// A stored message: it lies in the folder given under the UID that its JMAP
/// id hashes to, at the time that it states where it states a readable one,
/// with the flags of its keywords, its own size or zero, no raw message, and
/// what the host's parser makes of its header view.
pub proof fn law_stored_message_is_the_one_found<P, F: Fn(&[u8]) -> P, C: SyncClock + ?Sized>(
    message: IngestMessage<P>,
    email: EmailView,
    folder: FolderId,
    parse: F,
    clock: &C,
)
    requires
        stores(message, email, folder, parse, clock),
    ensures
        message.folder == folder,
        message.uid as int == std::collections::hash_map::DefaultHasher::spec_finish(
            hash_writes(email.id),
        ) % 0xffff_ffff + 1,
        match email.received_at {
            Some(text) => match rfc3339_millis(text) {
                Some(ms) => message.internal_date == ms,
                None => call_ensures(C::now_unix_ms, (clock,), message.internal_date),
            },
            None => call_ensures(C::now_unix_ms, (clock,), message.internal_date),
        },
        forall|flag: Flag| #[trigger]
            message.flags@.contains(flag) <==> {
                ||| flag == Flag::Seen && email.keywords.contains("$seen"@)
                ||| flag == Flag::Answered && email.keywords.contains("$answered"@)
                ||| flag == Flag::Flagged && email.keywords.contains("$flagged"@)
                ||| flag == Flag::Draft && email.keywords.contains("$draft"@)
            },
        message.flags@.no_duplicates(),
        message.raw_blob is None,
        email.size is None ==> message.raw_size == 0,
        email.size matches Some(size) ==> message.raw_size == size,
        exists|head: &[u8]|
            head@ == vstd::utf8::encode_utf8(header_text(email, message.uid)) && #[trigger]
            call_ensures(parse, (head,), message.parsed),
{
    law_flags_follow_keywords(email.keywords);
    let head = choose|head: &[u8]|
        head@ == vstd::utf8::encode_utf8(header_text(email, email_uid(email))) && call_ensures(
            parse,
            (head,),
            message.parsed,
        );
    assert(head@ == vstd::utf8::encode_utf8(header_text(email, message.uid)) && call_ensures(
        parse,
        (head,),
        message.parsed,
    ));
}

/// A batch stores every message found and no other: as many as were found,
/// each in its place and all in the one folder.
pub proof fn law_batch_stores_every_message<P, F: Fn(&[u8]) -> P, C: SyncClock + ?Sized>(
    batch: IngestBatch<P>,
    emails: Seq<EmailView>,
    folder: FolderId,
    parse: F,
    clock: &C,
    i: int,
)
    requires
        batch_stores(batch, emails, folder, parse, clock),
        0 <= i < emails.len(),
    ensures
        batch.messages@.len() == emails.len(),
        batch.messages@[i].folder == folder,
        stores(batch.messages@[i], emails[i], folder, parse, clock),
{
}

}
