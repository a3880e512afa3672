//! What is read from the rows of the store, column by column.
use vstd::prelude::*;

use crate::id;
use crate::id::Uuid;
use crate::json;
use crate::store::channels;
use crate::store::channels::ChannelRow;
use crate::store::contacts;
use crate::store::contacts::{ContactRow, ThreadRow};
use crate::store::drafts;
use crate::store::drafts::{DraftRecord, DraftRow, NewDraft};
use crate::store::messages;
use crate::store::messages::MessageRow;
use crate::store::reply_drafts;
use crate::store::reply_drafts::{NewReplyDraft, ReplyDraft, ReplyDraftRow};
use crate::store::sql;
use crate::time;
use crate::types::channel;
use crate::types::message;
use crate::types::{ChannelConfig, Contact, Message, PriorityScore, Thread};

verus! {

// ---------------------------------------------------------------------------
// Messages
// ---------------------------------------------------------------------------

/// Each part of a message that is read is that of its column.
pub proof fn a_message_is_read_column_by_column(m: Message, row: MessageRow)
    requires
        messages::message_read(m, row),
    ensures
        m.content.text == row.text,
        m.content.html == row.html,
        m.content.subject == row.subject,
        m.content.attachments == row.attachments,
        m.category == row.category,
        m.external_id == row.external_id,
        m.is_read <==> row.is_read != 0,
        m.is_archived <==> row.is_archived != 0,
        channel::channel_db_text(m.channel) == row.channel@,
        id::uuid_parsed(row.id@) matches Ok(x) ==> m.id.bits == x,
        id::uuid_parsed(row.thread_id@) matches Ok(x) ==> m.thread_id.bits == x,
        id::uuid_parsed(row.sender_id@) matches Ok(x) ==> m.sender_id.bits == x,
        time::rfc3339_parsed(row.timestamp@) matches Ok(t) ==> m.timestamp@ == (
            t.0 as int,
            t.1 as int,
        ),
        row.received_on_channel_id is None <==> m.received_on_channel_id is None,
{
}

/// A row whose columns are those of a message, as it is stored, holds the message.
pub proof fn a_row_holds_the_message_of_its_columns(row: MessageRow, m: Message)
    requires
        row.id@ == id::uuid_text(m.id),
        row.channel@ == channel::channel_db_text(m.channel),
        row.thread_id@ == id::uuid_text(m.thread_id),
        row.sender_id@ == id::uuid_text(m.sender_id),
        row.text == m.content.text,
        row.html == m.content.html,
        row.subject == m.content.subject,
        row.attachments == m.content.attachments,
        sql::storable_time(m.timestamp),
        row.timestamp@ == sql::time_text(m.timestamp),
        m.metadata.well_formed(),
        row.metadata_json matches Some(t) && json::json_object(m.metadata@) == Ok::<
            Seq<char>,
            Seq<char>,
        >(t@),
        m.priority is None,
        row.priority is None,
        row.category == m.category,
        row.is_read == if m.is_read {
            1i32
        } else {
            0i32
        },
        row.is_archived == if m.is_archived {
            1i32
        } else {
            0i32
        },
        row.external_id == m.external_id,
        m.received_on_channel_id is None,
        row.received_on_channel_id is None,
    ensures
        messages::holds(row, m),
{
}

// ---------------------------------------------------------------------------
// Channels
// ---------------------------------------------------------------------------

/// Each part of a channel that is read is that of its column.
pub proof fn a_channel_is_read_column_by_column(c: ChannelConfig, row: ChannelRow)
    requires
        channels::channel_read(c, row),
    ensures
        c.label@ == row.label@,
        c.keychain_ref@ == row.keychain_ref@,
        c.enabled <==> row.enabled != 0,
        c.poll_interval_secs == row.poll_interval_secs,
        c.last_sync_cursor == row.last_sync_cursor,
        c.last_error == row.last_error,
        c.consecutive_failures == row.consecutive_failures,
        channel::channel_db_text(c.channel) == row.channel@,
        id::uuid_parsed(row.id@) matches Ok(x) ==> c.id.bits == x,
        row.last_sync_at is None <==> c.last_sync_at is None,
{
}

/// A row whose columns are those of a healthy channel, as it is stored, holds the
/// channel.
pub proof fn a_row_holds_the_channel_of_its_columns(row: ChannelRow, c: ChannelConfig)
    requires
        row.id@ == id::uuid_text(c.id),
        row.channel@ == channel::channel_db_text(c.channel),
        row.label@ == c.label@,
        row.keychain_ref@ == c.keychain_ref@,
        row.enabled == if c.enabled {
            1i32
        } else {
            0i32
        },
        row.poll_interval_secs == c.poll_interval_secs,
        row.last_sync_cursor == c.last_sync_cursor,
        row.last_sync_at is None,
        c.last_sync_at is None,
        c.status is Healthy,
        row.status@ == "healthy"@,
        row.last_error == c.last_error,
        row.consecutive_failures == c.consecutive_failures,
    ensures
        channels::channel_holds(row, c),
{
}

// ---------------------------------------------------------------------------
// Contacts and threads
// ---------------------------------------------------------------------------

/// Each part of a contact that is read is that of its column, and its addresses are
/// those of the rows, in order.
pub proof fn a_contact_is_read_column_by_column(
    c: Contact,
    id: Uuid,
    row: ContactRow,
    identities: Seq<(String, String)>,
    i: int,
)
    requires
        contacts::contact_read(c, id, row, identities),
        0 <= i < identities.len(),
    ensures
        c.id == id,
        c.display_name == row.display_name,
        c.vault_ref == row.vault_ref,
        time::rfc3339_parsed(row.created_at@) matches Ok(t) ==> c.created_at@ == (
            t.0 as int,
            t.1 as int,
        ),
        time::rfc3339_parsed(row.updated_at@) matches Ok(t) ==> c.updated_at@ == (
            t.0 as int,
            t.1 as int,
        ),
        c.identities@.len() == identities.len(),
        channel::channel_db_text(c.identities@[i].channel) == identities[i].0@,
        c.identities@[i].address@ == identities[i].1@,
{
    assert(channel::channel_db_text(c.identities@[i].channel) == identities[i].0@);
}

/// A row whose columns are those of a thread, as it is stored, holds the thread.
pub proof fn a_row_holds_the_thread_of_its_columns(row: ThreadRow, t: Thread)
    requires
        row.id@ == id::uuid_text(t.id),
        row.channel@ == channel::channel_db_text(t.channel),
        row.subject == t.subject,
        row.message_count == t.message_count,
        sql::storable_time(t.last_message_at),
        row.last_message_at@ == sql::time_text(t.last_message_at),
        sql::storable_time(t.created_at),
        row.created_at@ == sql::time_text(t.created_at),
        row.external_thread_id == t.external_thread_id,
    ensures
        contacts::thread_holds(row, t),
{
}

// ---------------------------------------------------------------------------
// Drafts and replies
// ---------------------------------------------------------------------------

/// A draft that is read from the row that holds it is that draft, part by part.
pub proof fn a_draft_is_read_column_by_column(r: DraftRecord, d: NewDraft)
    requires
        drafts::is_draft(r, d),
    ensures
        r.id == d.id,
        r.message_id == d.message_id,
        r.action_type@ == d.action_type@,
        r.input_redacted@ == d.input_redacted@,
        r.output@ == d.output@,
        r.confidence == d.confidence,
        r.provider@ == d.provider@,
        r.model@ == d.model@,
{
}

/// A row whose columns are those of a draft without a message holds the draft.
pub proof fn a_row_holds_the_draft_of_its_columns(row: DraftRow, d: NewDraft)
    requires
        row.id@ == id::uuid_text(d.id),
        row.message_id is None,
        d.message_id is None,
        row.action_type@ == d.action_type@,
        row.input_redacted@ == d.input_redacted@,
        row.output@ == d.output@,
        row.confidence == d.confidence,
        row.provider@ == d.provider@,
        row.model@ == d.model@,
    ensures
        drafts::draft_holds(row, d),
{
}

/// A reply that is read from the row that holds it is that reply, part by part.
pub proof fn a_reply_is_read_column_by_column(
    row: ReplyDraftRow,
    r: ReplyDraft,
    d: NewReplyDraft,
)
    requires
        reply_drafts::is_reply(r, d),
        reply_drafts::reply_holds(row, d),
    ensures
        row.thread_id@ == id::uuid_text(r.thread_id),
        row.in_reply_to_message_id@ == id::uuid_text(r.in_reply_to_message_id),
        r.body@ == row.body@,
        message::optional_text(r.subject) == message::optional_text(row.subject),
{
}

// ---------------------------------------------------------------------------
// Words
// ---------------------------------------------------------------------------

/// A text that stands for no channel and no identifier is refused in the order of
/// the checks: the channel first.
pub proof fn an_unknown_channel_is_refused_first(row: MessageRow)
    requires
        !sql::stores_channel(row.channel@),
    ensures
        messages::message_row_error(row) == Some(
            sql::RowError::Invalid("unknown channel: "@ + row.channel@),
        ),
{
}

/// A row whose texts can all be read is read.
pub proof fn a_readable_row_is_read(row: MessageRow)
    requires
        sql::stores_channel(row.channel@),
        id::uuid_parsed(row.id@) is Ok,
        id::uuid_parsed(row.thread_id@) is Ok,
        id::uuid_parsed(row.sender_id@) is Ok,
        time::rfc3339_parsed(row.timestamp@) is Ok,
        row.received_on_channel_id is None,
    ensures
        messages::message_row_error(row) is None,
{
}

/// A stored priority from one to five is read as that, and none as none.
pub proof fn a_priority_is_read_as_it_was_stored(p: Option<PriorityScore>, n: i32)
    ensures
        messages::priority_read(p, None) <==> p is None,
        1 <= n <= 5 ==> (messages::priority_read(p, Some(n)) <==> (p matches Some(s) && s@ == n)),
{
}

} // verus!
