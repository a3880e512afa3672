//! What becomes of the messages that a channel brought.
use vstd::prelude::*;

use crate::adapters::raw;
use crate::adapters::raw::{normalize_with_id, RawMessage};
use crate::id::Uuid;
use crate::runtime::events::{EventText, RuntimeEvent};
use crate::store::contacts;
use crate::store::sql::ValueText;
use crate::text::copy_option;
use crate::types::message;
use crate::types::{Channel, Message, Thread};

verus! {

/// Messages of one channel that are to be taken in.
#[derive(Debug)]
pub struct IngestJob {
    pub channel_id: Uuid,
    pub batch: Vec<RawMessage>,
}

/// The thread of a message: one that was there, or a new one.
#[derive(Debug)]
pub enum ThreadChoice {
    Existing(Thread),
    New(Thread),
}

/// `t` is a new thread for `raw`.
pub open spec fn opened_for(t: Thread, raw: RawMessage, id: Uuid) -> bool {
    &&& t.id == id
    &&& t.channel == raw.channel
    &&& message::optional_text(t.subject) == message::optional_text(raw.subject)
    &&& t.participant_ids@.len() == 0
    &&& t.message_count == 0
    &&& t.last_message_at == raw.timestamp
    &&& t.created_at == raw.timestamp
    &&& message::optional_text(t.external_thread_id) == message::optional_text(
        raw.external_thread_id,
    )
}

/// `r` is the thread of a message for which the store has `found`.
pub open spec fn resolved(
    r: ThreadChoice,
    raw: RawMessage,
    found: Option<Thread>,
    new_id: Uuid,
) -> bool {
    match r {
        ThreadChoice::Existing(t) => raw.external_thread_id is Some && found == Some(t),
        ThreadChoice::New(t) => (raw.external_thread_id is None || found is None) && opened_for(
            t,
            raw,
            new_id,
        ),
    }
}

/// The thread of a message. `found` is what the store has under the channel
/// and the message's external thread; a message without one gets its own.
pub fn resolve_thread(raw: &RawMessage, found: Option<Thread>, new_id: Uuid) -> (r: ThreadChoice)
    ensures
        resolved(r, *raw, found, new_id),
{
    if raw.external_thread_id.is_some() {
        if let Some(t) = found {
            return ThreadChoice::Existing(t);
        }
    }
    ThreadChoice::New(
        Thread {
            id: new_id,
            channel: raw.channel,
            subject: copy_option(&raw.subject),
            participant_ids: Vec::new(),
            message_count: 0,
            last_message_at: raw.timestamp,
            created_at: raw.timestamp,
            external_thread_id: copy_option(&raw.external_thread_id),
        },
    )
}

/// The message to store: what `raw` becomes, with the channel it came on.
pub fn ingest_message(
    raw: RawMessage,
    contact_id: Uuid,
    thread_id: Uuid,
    channel_id: Uuid,
    id: Uuid,
) -> (r: Message)
    ensures
        r.id == id,
        r.received_on_channel_id == Some(channel_id),
        raw::normalized(
            (Message { received_on_channel_id: None, ..r }),
            raw,
            contact_id,
            thread_id,
        ),
{
    let mut m = normalize_with_id(raw, contact_id, thread_id, id);
    m.received_on_channel_id = Some(channel_id);
    m
}

/// What is published, and whether the message goes to the classifier, after it
/// was stored or could not be.
#[derive(Debug)]
pub struct IngestFollowUp {
    pub event: Option<RuntimeEvent>,
    pub classify: Option<Uuid>,
}

/// A stored message is published, and classified where there is a classifier;
/// one that could not be stored is dropped.
pub fn after_ingest(stored: Option<Uuid>, channel_id: Uuid, has_classifier: bool) -> (r:
    IngestFollowUp)
    ensures
        match stored {
            Some(id) => {
                &&& r.event matches Some(e) && e@ == (EventText::MessageIngested {
                    id,
                    channel_id,
                })
                &&& r.classify == if has_classifier {
                    Some(id)
                } else {
                    None
                }
            },
            None => r.event is None && r.classify is None,
        },
{
    match stored {
        Some(id) => IngestFollowUp {
            event: Some(RuntimeEvent::MessageIngested { id, channel_id }),
            classify: if has_classifier {
                Some(id)
            } else {
                None
            },
        },
        None => IngestFollowUp { event: None, classify: None },
    }
}

// ---------------------------------------------------------------------------
// Laws
// ---------------------------------------------------------------------------

/// The values by which the thread of a message is asked for.
pub open spec fn key_of(raw: RawMessage) -> Seq<ValueText> {
    contacts::thread_key(raw.channel, raw.external_thread_id->0@)
}

/// `found` is what comes back when a store that holds `threads` is asked for a
/// thread: one of those that it has under these values, and none where it has
/// none.
pub open spec fn answers(found: Option<Thread>, threads: Seq<Thread>, key: Seq<ValueText>) -> bool {
    match found {
        Some(t) => exists|i: int|
            0 <= i < threads.len() && contacts::has_key(#[trigger] threads[i], key)
                && contacts::same_thread(t, threads[i]),
        None => forall|i: int|
            0 <= i < threads.len() ==> !contacts::has_key(#[trigger] threads[i], key),
    }
}

/// No two threads are asked for by the same values.
pub open spec fn one_thread_each(threads: Seq<Thread>) -> bool {
    forall|i: int, j: int, channel: Channel, external: Seq<char>|
        0 <= i < j < threads.len() ==> !(#[trigger] contacts::has_key(
            threads[i],
            contacts::thread_key(channel, external),
        ) && #[trigger] contacts::has_key(
            threads[j],
            contacts::thread_key(channel, external),
        ))
}

/// The threads of the store once the thread of a message was chosen: a new one is
/// stored, one that was there stays.
pub open spec fn threads_after(threads: Seq<Thread>, r: ThreadChoice) -> Seq<Thread> {
    match r {
        ThreadChoice::Existing(_) => threads,
        ThreadChoice::New(t) => threads.push(t),
    }
}

/// The identifier of the thread that was chosen.
pub open spec fn chosen_id(r: ThreadChoice) -> Uuid {
    match r {
        ThreadChoice::Existing(t) => t.id,
        ThreadChoice::New(t) => t.id,
    }
}

/// Two messages of one channel with the same external thread, the second taken in
/// after the first, share a thread, and the second adds none to the store.
pub proof fn same_external_thread_shares_a_thread(
    threads: Seq<Thread>,
    first: RawMessage,
    found: Option<Thread>,
    id: Uuid,
    r: ThreadChoice,
    second: RawMessage,
    found_again: Option<Thread>,
    other_id: Uuid,
    r_again: ThreadChoice,
)
    requires
        one_thread_each(threads),
        first.channel == second.channel,
        first.external_thread_id is Some,
        message::optional_text(first.external_thread_id) == message::optional_text(
            second.external_thread_id,
        ),
        answers(found, threads, key_of(first)),
        resolved(r, first, found, id),
        answers(found_again, threads_after(threads, r), key_of(second)),
        resolved(r_again, second, found_again, other_id),
    ensures
        chosen_id(r_again) == chosen_id(r),
        r_again is Existing,
        threads_after(threads_after(threads, r), r_again) == threads_after(threads, r),
{
    let key = key_of(first);
    let channel = first.channel;
    let external = first.external_thread_id->0@;
    assert(key_of(second) == key);
    assert(key == contacts::thread_key(channel, external));
    let after = threads_after(threads, r);
    match r {
        ThreadChoice::New(t) => {
            assert(contacts::has_key(t, key));
            assert(after[after.len() - 1] == t);
            assert(found_again is Some);
            let i = choose|i: int|
                0 <= i < after.len() && contacts::has_key(#[trigger] after[i], key)
                    && contacts::same_thread(found_again->0, after[i]);
            if i < threads.len() {
                assert(after[i] == threads[i]);
            }
        },
        ThreadChoice::Existing(t) => {
            let i = choose|i: int|
                0 <= i < threads.len() && contacts::has_key(#[trigger] threads[i], key)
                    && contacts::same_thread(t, threads[i]);
            assert(found_again is Some);
            let j = choose|j: int|
                0 <= j < threads.len() && contacts::has_key(#[trigger] threads[j], key)
                    && contacts::same_thread(found_again->0, threads[j]);
            assert(i == j);
        },
    }
}

/// Taking a message in leaves no two threads that are asked for by the same
/// values.
pub proof fn threads_stay_apart(
    threads: Seq<Thread>,
    raw: RawMessage,
    found: Option<Thread>,
    id: Uuid,
    r: ThreadChoice,
)
    requires
        one_thread_each(threads),
        raw.external_thread_id is Some ==> answers(found, threads, key_of(raw)),
        resolved(r, raw, found, id),
    ensures
        one_thread_each(threads_after(threads, r)),
{
    let after = threads_after(threads, r);
    assert forall|i: int, j: int, channel: Channel, external: Seq<char>|
        0 <= i < j < after.len() implies !(#[trigger] contacts::has_key(
        after[i],
        contacts::thread_key(channel, external),
    ) && #[trigger] contacts::has_key(after[j], contacts::thread_key(channel, external))) by {
        let key = contacts::thread_key(channel, external);
        if contacts::has_key(after[i], key) && contacts::has_key(after[j], key) {
            assert(after[i] == threads[i]);
            if j < threads.len() {
                assert(after[j] == threads[j]);
            } else {
                let t = after[j];
                assert(t.channel == raw.channel);
                assert(raw.external_thread_id is Some);
                assert(key =~= key_of(raw));
                assert(!contacts::has_key(threads[i], key_of(raw)));
            }
        }
    }
}

} // verus!
