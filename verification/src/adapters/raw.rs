//! Messages as the services give them.
use vstd::prelude::*;

use crate::id;
use crate::id::Uuid;
use crate::text::copy_option;
use crate::text_map::TextMap;
use crate::time;
use crate::time::Timestamp;
use crate::types::message;
use crate::types::message::AttachmentText;
use crate::types::{Attachment, Channel, Message, MessageContent};

verus! {

/// A message as a service gives it.
#[derive(Debug)]
pub struct RawMessage {
    /// The identifier that the service gave the message.
    pub external_id: String,
    pub channel: Channel,
    /// The identifier that the service gave the conversation.
    pub external_thread_id: Option<String>,
    pub sender_name: String,
    pub sender_address: String,
    pub text: Option<String>,
    pub html: Option<String>,
    pub subject: Option<String>,
    pub attachments: Vec<RawAttachment>,
    /// When the message was sent.
    pub timestamp: Timestamp,
    pub metadata: TextMap,
}

/// A file that comes with a message.
#[derive(Debug)]
pub struct RawAttachment {
    pub filename: String,
    pub mime_type: String,
    pub size_bytes: u64,
}

/// `a` and `b` hold the same.
pub open spec fn same_raw(a: RawMessage, b: RawMessage) -> bool {
    &&& a.external_id@ == b.external_id@
    &&& a.channel == b.channel
    &&& message::optional_text(a.external_thread_id) == message::optional_text(
        b.external_thread_id,
    )
    &&& a.sender_name@ == b.sender_name@
    &&& a.sender_address@ == b.sender_address@
    &&& message::optional_text(a.text) == message::optional_text(b.text)
    &&& message::optional_text(a.html) == message::optional_text(b.html)
    &&& message::optional_text(a.subject) == message::optional_text(b.subject)
    &&& a.attachments@.map_values(|x: RawAttachment| received(x)) == b.attachments@.map_values(
        |x: RawAttachment| received(x),
    )
    &&& a.timestamp == b.timestamp
    &&& a.metadata@ == b.metadata@
}

impl RawMessage {
    /// A copy of the message.
    pub fn copy(&self) -> (r: RawMessage)
        ensures
            same_raw(r, *self),
    {
        let mut attachments: Vec<RawAttachment> = Vec::new();
        let ghost all = self.attachments@.map_values(|x: RawAttachment| received(x));
        for i in 0..self.attachments.len()
            invariant
                all == self.attachments@.map_values(|x: RawAttachment| received(x)),
                attachments@.map_values(|x: RawAttachment| received(x)) == all.take(i as int),
        {
            let ghost before = attachments@;
            let a = &self.attachments[i];
            attachments.push(
                RawAttachment {
                    filename: a.filename.clone(),
                    mime_type: a.mime_type.clone(),
                    size_bytes: a.size_bytes,
                },
            );
            proof {
                assert(attachments@.map_values(|x: RawAttachment| received(x))
                    =~= before.map_values(|x: RawAttachment| received(x)).push(
                    received(attachments@.last()),
                ));
                assert(all.take(i + 1) =~= all.take(i as int).push(all[i as int]));
            }
        }
        proof {
            assert(all.take(all.len() as int) =~= all);
        }
        RawMessage {
            external_id: self.external_id.clone(),
            channel: self.channel,
            external_thread_id: copy_option(&self.external_thread_id),
            sender_name: self.sender_name.clone(),
            sender_address: self.sender_address.clone(),
            text: copy_option(&self.text),
            html: copy_option(&self.html),
            subject: copy_option(&self.subject),
            attachments,
            timestamp: self.timestamp,
            metadata: self.metadata.copy(),
        }
    }
}

/// An attachment that was not stored on this machine.
pub open spec fn received(a: RawAttachment) -> AttachmentText {
    AttachmentText {
        filename: a.filename@,
        mime_type: a.mime_type@,
        size_bytes: a.size_bytes as nat,
        local_path: None,
    }
}

/// The attachments of a message as it came.
pub open spec fn received_all(v: Seq<RawAttachment>) -> Seq<AttachmentText> {
    v.map_values(|a: RawAttachment| received(a))
}

/// `m` is what becomes of `raw`: its content as it came, unread, not archived
/// and neither scored nor sorted.
pub open spec fn normalized(m: Message, raw: RawMessage, sender_id: Uuid, thread_id: Uuid) -> bool {
    &&& m.channel == raw.channel
    &&& m.sender_id == sender_id
    &&& m.thread_id == thread_id
    &&& m.content.text == raw.text
    &&& m.content.html == raw.html
    &&& m.content.subject == raw.subject
    &&& message::attachment_texts(m.content.attachments@) == received_all(raw.attachments@)
    &&& m.timestamp == raw.timestamp
    &&& m.metadata == raw.metadata
    &&& m.priority is None
    &&& m.category is None
    &&& !m.is_read
    &&& !m.is_archived
    &&& m.external_id is None
    &&& m.received_on_channel_id is None
}

/// The message with this identifier that `raw` becomes. Its sender and thread
/// have been found before.
pub fn normalize_with_id(raw: RawMessage, sender_id: Uuid, thread_id: Uuid, id: Uuid) -> (r:
    Message)
    ensures
        r.id == id,
        normalized(r, raw, sender_id, thread_id),
{
    let ghost all = received_all(raw.attachments@);
    let mut attachments: Vec<Attachment> = Vec::new();
    for i in 0..raw.attachments.len()
        invariant
            all == received_all(raw.attachments@),
            message::attachment_texts(attachments@) == all.take(i as int),
    {
        let ghost before = message::attachment_texts(attachments@);
        let a = &raw.attachments[i];
        attachments.push(
            Attachment {
                filename: a.filename.clone(),
                mime_type: a.mime_type.clone(),
                size_bytes: a.size_bytes,
                local_path: None,
            },
        );
        proof {
            assert(message::attachment_texts(attachments@) =~= before.push(
                received(raw.attachments@[i as int]),
            ));
            assert(message::attachment_texts(attachments@) =~= all.take(i + 1));
        }
    }
    proof {
        assert(all.take(all.len() as int) =~= all);
    }
    Message {
        id,
        channel: raw.channel,
        thread_id,
        sender_id,
        content: MessageContent {
            text: raw.text,
            html: raw.html,
            subject: raw.subject,
            attachments,
        },
        timestamp: raw.timestamp,
        metadata: raw.metadata,
        priority: None,
        category: None,
        is_read: false,
        is_archived: false,
        external_id: None,
        received_on_channel_id: None,
    }
}

/// The message that `raw` becomes, under a new random identifier.
pub fn normalize(raw: RawMessage, sender_id: Uuid, thread_id: Uuid) -> (r: Message)
    ensures
        id::random_shape(r.id),
        normalized(r, raw, sender_id, thread_id),
{
    let id = Uuid::random();
    normalize_with_id(raw, sender_id, thread_id, id)
}

/// The time is not before `since`.
pub open spec fn not_before(t: (int, int), since: Option<Timestamp>) -> bool {
    match since {
        Some(s) => !time::later(s@, t),
        None => true,
    }
}

/// Whether the time is not before `since`.
pub fn is_not_before(t: &Timestamp, since: &Option<Timestamp>) -> (r: bool)
    ensures
        r == not_before(t@, *since),
{
    match since {
        Some(s) => !s.is_after(t),
        None => true,
    }
}

/// The latest of the messages' times.
pub open spec fn latest_of(batch: Seq<RawMessage>) -> Option<(int, int)>
    decreases batch.len(),
{
    if batch.len() == 0 {
        None
    } else {
        let t = batch.last().timestamp@;
        match latest_of(batch.drop_last()) {
            Some(before) => if time::later(before, t) {
                Some(before)
            } else {
                Some(t)
            },
            None => Some(t),
        }
    }
}

/// The latest of the messages' times.
pub fn latest_timestamp(batch: &Vec<RawMessage>) -> (r: Option<Timestamp>)
    ensures
        match r {
            Some(t) => latest_of(batch@) == Some(t@),
            None => latest_of(batch@) is None,
        },
        r is Some <==> batch@.len() > 0,
{
    let mut latest: Option<Timestamp> = None;
    for i in 0..batch.len()
        invariant
            match latest {
                Some(t) => latest_of(batch@.take(i as int)) == Some(t@),
                None => latest_of(batch@.take(i as int)) is None,
            },
            latest is Some <==> i > 0,
    {
        let t = batch[i].timestamp;
        proof {
            assert(batch@.take(i + 1).drop_last() =~= batch@.take(i as int));
            assert(batch@.take(i + 1).last() == batch@[i as int]);
        }
        latest = match latest {
            Some(before) => if before.is_after(&t) {
                Some(before)
            } else {
                Some(t)
            },
            None => Some(t),
        };
    }
    proof {
        assert(batch@.take(batch@.len() as int) =~= batch@);
    }
    latest
}

/// No message of a batch comes after its latest time, which is that of one of
/// them.
pub proof fn latest_is_the_greatest(batch: Seq<RawMessage>, i: int)
    requires
        0 <= i < batch.len(),
    ensures
        latest_of(batch) is Some,
        !time::later(batch[i].timestamp@, latest_of(batch)->0),
        exists|k: int| 0 <= k < batch.len() && (#[trigger] batch[k]).timestamp@ == latest_of(
            batch,
        )->0,
    decreases batch.len(),
{
    let rest = batch.drop_last();
    let last = batch[batch.len() - 1];
    assert(batch.last() == last);
    if rest.len() > 0 {
        let j = if i < rest.len() {
            i
        } else {
            0
        };
        latest_is_the_greatest(rest, j);
        let k = choose|k: int|
            0 <= k < rest.len() && (#[trigger] rest[k]).timestamp@ == latest_of(rest)->0;
        assert(batch[k] == rest[k]);
        assert(rest[j] == batch[j]);
    }
}

} // verus!
