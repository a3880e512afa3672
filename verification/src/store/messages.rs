//! Stored messages.
use vstd::prelude::*;
use vstd::string::StringExecFns;

use crate::error::CoreError;
use crate::id;
use crate::id::Uuid;
use crate::json;
use crate::store::meaning;
use crate::store::message_laws;
use crate::store::sql;
use crate::store::sql::{
    flag_value, optional_value, read_channel, read_id, read_time, require_row, statement,
    text_value, RowError, SqlValue, Statement, ValueText,
};
use crate::text;
use crate::text::{decimal_string, from_chars, replace_chars, to_chars};
use crate::text_map;
use crate::text_map::TextMap;
use crate::time;
use crate::types::channel;
use crate::types::message;
use crate::types::{Attachment, Channel, Message, MessageContent, PriorityScore};

verus! {

/// Which messages are asked for.
#[derive(Debug)]
pub struct MessageFilter {
    pub channel: Option<Channel>,
    pub unread_only: bool,
    /// The least priority; none for any, also where there is no priority.
    pub min_priority: Option<u8>,
    pub archived: bool,
}

impl Default for MessageFilter {
    fn default() -> (r: MessageFilter)
        ensures
            r.channel is None,
            !r.unread_only,
            r.min_priority is None,
            !r.archived,
    {
        MessageFilter { channel: None, unread_only: false, min_priority: None, archived: false }
    }
}

// ---------------------------------------------------------------------------
// Writing
// ---------------------------------------------------------------------------

/// The statement that stores a message. One that the channel's service has
/// given before is left as it is.
pub const INSERT_MESSAGE: &'static str =
    "INSERT INTO messages (id, channel_type, thread_id, sender_id, content_text, content_html, content_subject, attachments_json, timestamp, metadata_json, priority_score, category, is_read, is_archived, external_id, received_on_channel_id)
             VALUES (?1, ?2, ?3, ?4, ?5, ?6, ?7, ?8, ?9, ?10, ?11, ?12, ?13, ?14, ?15, ?16)
             ON CONFLICT(channel_type, external_id) WHERE external_id IS NOT NULL DO NOTHING";

/// A priority as a value.
pub open spec fn priority_value(p: Option<PriorityScore>) -> ValueText {
    match p {
        Some(s) => ValueText::Integer(s@ as int),
        None => ValueText::Null,
    }
}

/// An identifier as a value, or nothing.
pub open spec fn id_value(o: Option<Uuid>) -> ValueText {
    match o {
        Some(x) => ValueText::Text(id::uuid_text(x)),
        None => ValueText::Null,
    }
}

/// The values under which a message is stored.
pub open spec fn message_values(
    m: Message,
    attachments_json: Seq<char>,
    metadata_json: Seq<char>,
) -> Seq<ValueText> {
    seq![
        ValueText::Text(id::uuid_text(m.id)),
        ValueText::Text(channel::channel_db_text(m.channel)),
        ValueText::Text(id::uuid_text(m.thread_id)),
        ValueText::Text(id::uuid_text(m.sender_id)),
        sql::optional(message::optional_text(m.content.text)),
        sql::optional(message::optional_text(m.content.html)),
        sql::optional(message::optional_text(m.content.subject)),
        ValueText::Text(attachments_json),
        ValueText::Text(sql::time_text(m.timestamp)),
        ValueText::Text(metadata_json),
        priority_value(m.priority),
        sql::optional(message::optional_text(m.category)),
        sql::flag(m.is_read),
        sql::flag(m.is_archived),
        sql::optional(message::optional_text(m.external_id)),
        id_value(m.received_on_channel_id),
    ]
}

fn write_priority(p: &Option<PriorityScore>) -> (r: SqlValue)
    ensures
        r@ == priority_value(*p),
{
    match p {
        Some(s) => SqlValue::Integer(s.value() as i64),
        None => SqlValue::Null,
    }
}

/// An identifier as a value, or nothing.
pub fn write_id(o: Option<Uuid>) -> (r: SqlValue)
    ensures
        r@ == id_value(o),
{
    match o {
        Some(x) => SqlValue::Text(x.text()),
        None => SqlValue::Null,
    }
}

/// The statement that stores a message, whose attachments are given as JSON.
pub fn insert_message(m: &Message, attachments_json: &str) -> (r: Result<Statement, CoreError>)
    ensures
        match json::json_object(m.metadata@) {
            Ok(metadata_json) => r is Ok && sql::says(
                r->Ok_0,
                INSERT_MESSAGE@,
                message_values(*m, attachments_json@, metadata_json),
            ) && r->Ok_0.sql@ == meaning::insert_text(message_laws::message_insert()),
            Err(e) => r is Err && (r->Err_0 matches CoreError::Serialization(x) && x@ == e),
        },
{
    let metadata_json = match m.metadata.to_json() {
        Ok(t) => t,
        Err(e) => return Err(CoreError::Serialization(e)),
    };
    let params = vec![
        SqlValue::Text(m.id.text()),
        text_value(m.channel.to_db_str()),
        SqlValue::Text(m.thread_id.text()),
        SqlValue::Text(m.sender_id.text()),
        optional_value(&m.content.text),
        optional_value(&m.content.html),
        optional_value(&m.content.subject),
        text_value(attachments_json),
        SqlValue::Text(m.timestamp.rfc3339()),
        text_value(metadata_json.as_str()),
        write_priority(&m.priority),
        optional_value(&m.category),
        flag_value(m.is_read),
        flag_value(m.is_archived),
        optional_value(&m.external_id),
        write_id(m.received_on_channel_id),
    ];
    proof {
        assert(sql::values(params@) =~= message_values(*m, attachments_json@, metadata_json@));
        message_laws::lemma_insert_text();
    }
    Ok(statement(INSERT_MESSAGE, params))
}

/// The statement that marks a message read or unread.
pub const MARK_READ: &'static str = "UPDATE messages SET is_read = ?1 WHERE id = ?2";

/// The values of the statement that marks a message.
pub open spec fn mark_values(id: Uuid, read: bool) -> Seq<ValueText> {
    seq![sql::flag(read), ValueText::Text(id::uuid_text(id))]
}

/// The statement that marks a message read or unread.
pub fn mark_read(id: Uuid, read: bool) -> (r: Statement)
    ensures
        sql::says(r, "UPDATE messages SET is_read = ?1 WHERE id = ?2"@, mark_values(id, read)),
        r.sql@ == meaning::update_text(message_laws::mark_update()),
{
    let params = vec![flag_value(read), SqlValue::Text(id.text())];
    proof {
        assert(sql::values(params@) =~= mark_values(id, read));
        message_laws::lemma_mark_update_text();
    }
    statement(MARK_READ, params)
}

/// A message that is to be marked has to be there.
pub fn check_marked(rows: usize, id: Uuid) -> (r: Result<(), CoreError>)
    ensures
        r is Ok <==> rows > 0,
        r is Err ==> sql::is_not_found(r->Err_0, "message"@, id::uuid_text(id)),
{
    let t = id.text();
    require_row(rows, "message", t.as_str())
}

/// The statement that gives a stored message its priority and category.
pub const SET_CLASSIFICATION: &'static str =
    "UPDATE messages SET priority_score = ?1, category = ?2 WHERE id = ?3";

/// The values of the statement that classifies a message.
pub open spec fn classification_values(
    id: Uuid,
    category: Option<String>,
    priority: Option<PriorityScore>,
) -> Seq<ValueText> {
    seq![
        priority_value(priority),
        sql::optional(message::optional_text(category)),
        ValueText::Text(id::uuid_text(id)),
    ]
}

/// The statement that gives a stored message its priority and category.
pub fn set_message_classification(
    id: Uuid,
    category: &Option<String>,
    priority: Option<PriorityScore>,
) -> (r: Statement)
    ensures
        sql::says(
            r,
            "UPDATE messages SET priority_score = ?1, category = ?2 WHERE id = ?3"@,
            classification_values(id, *category, priority),
        ),
        r.sql@ == meaning::update_text(message_laws::classify_update()),
{
    let params = vec![
        write_priority(&priority),
        optional_value(category),
        SqlValue::Text(id.text()),
    ];
    proof {
        assert(sql::values(params@) =~= classification_values(id, *category, priority));
        message_laws::lemma_classify_update_text();
    }
    statement(SET_CLASSIFICATION, params)
}

// ---------------------------------------------------------------------------
// Asking
// ---------------------------------------------------------------------------

/// The start of the statements that ask for messages.
pub const SELECT_MESSAGES: &'static str =
    "SELECT id, channel_type, thread_id, sender_id, content_text, content_html, content_subject, attachments_json, timestamp, metadata_json, priority_score, category, is_read, is_archived, external_id, received_on_channel_id FROM messages";

/// The number of the parameter for the least priority.
pub open spec fn priority_index(f: MessageFilter) -> nat {
    if f.channel is Some {
        3
    } else {
        2
    }
}

/// The condition of a filter: each part stands where it is asked for, and its
/// parameter has the number of its value.
pub open spec fn where_text(f: MessageFilter) -> Seq<char> {
    " WHERE is_archived = ?1"@ + (match f.channel {
        Some(_) => " AND channel_type = ?"@ + text::decimal(2),
        None => Seq::empty(),
    }) + (if f.unread_only {
        " AND is_read = 0"@
    } else {
        Seq::empty()
    }) + (match f.min_priority {
        Some(_) => " AND priority_score IS NOT NULL AND priority_score >= ?"@ + text::decimal(
            priority_index(f),
        ),
        None => Seq::empty(),
    })
}

/// The values of a filter.
pub open spec fn where_values(f: MessageFilter) -> Seq<ValueText> {
    seq![sql::flag(f.archived)] + (match f.channel {
        Some(c) => seq![ValueText::Text(channel::channel_db_text(c))],
        None => Seq::empty(),
    }) + (match f.min_priority {
        Some(p) => seq![ValueText::Integer(p as int)],
        None => Seq::empty(),
    })
}

/// The condition of a filter and its values.
pub fn build_where_clause(f: &MessageFilter) -> (r: (String, Vec<SqlValue>))
    ensures
        r.0@ == where_text(*f),
        sql::values(r.1@) == where_values(*f),
        1 <= r.1@.len() <= 3,
{
    let mut out = " WHERE is_archived = ?1".to_owned();
    let mut params: Vec<SqlValue> = Vec::new();
    params.push(flag_value(f.archived));
    let mut part = String::new();
    if let Some(c) = f.channel {
        params.push(text_value(c.to_db_str()));
        part = " AND channel_type = ?".to_owned();
        part.append(decimal_string(params.len() as u128).as_str());
    } else {
        proof {
            assert(part@ =~= Seq::empty());
        }
    }
    out.append(part.as_str());
    let mut part = String::new();
    if f.unread_only {
        part = " AND is_read = 0".to_owned();
    } else {
        proof {
            assert(part@ =~= Seq::empty());
        }
    }
    out.append(part.as_str());
    let mut part = String::new();
    if let Some(p) = f.min_priority {
        params.push(SqlValue::Integer(p as i64));
        part = " AND priority_score IS NOT NULL AND priority_score >= ?".to_owned();
        part.append(decimal_string(params.len() as u128).as_str());
    } else {
        proof {
            assert(part@ =~= Seq::empty());
        }
    }
    out.append(part.as_str());
    proof {
        assert(sql::values(params@) =~= where_values(*f));
    }
    (out, params)
}

/// The statement for a page of messages, the newest first.
pub open spec fn page_text(f: MessageFilter) -> Seq<char> {
    let n = where_values(f).len();
    SELECT_MESSAGES@ + where_text(f) + " ORDER BY timestamp DESC LIMIT ?"@ + text::decimal(
        n + 1,
    ) + " OFFSET ?"@ + text::decimal(n + 2)
}

/// The values of the statement for a page of messages.
pub open spec fn page_values(f: MessageFilter, limit: u32, offset: u32) -> Seq<ValueText> {
    where_values(f) + seq![
        ValueText::Integer(limit as int),
        ValueText::Integer(offset as int),
    ]
}

/// The statement for a page of messages.
pub fn list_messages(f: &MessageFilter, limit: u32, offset: u32) -> (r: Statement)
    ensures
        sql::says(r, page_text(*f), page_values(*f, limit, offset)),
        r.sql@ == meaning::query_text(message_laws::page_query(*f)),
{
    let (condition, params) = build_where_clause(f);
    let mut params = params;
    let ghost before = sql::values(params@);
    let n: u128 = params.len() as u128;
    let mut out = SELECT_MESSAGES.to_owned();
    out.append(condition.as_str());
    out.append(" ORDER BY timestamp DESC LIMIT ?");
    out.append(decimal_string(n + 1).as_str());
    out.append(" OFFSET ?");
    out.append(decimal_string(n + 2).as_str());
    params.push(SqlValue::Integer(limit as i64));
    params.push(SqlValue::Integer(offset as i64));
    proof {
        assert(sql::values(params@) =~= before + seq![
            ValueText::Integer(limit as int),
            ValueText::Integer(offset as int),
        ]);
        message_laws::lemma_page_text(*f);
    }
    Statement { sql: out, params }
}

/// The statement that counts messages.
pub fn count_messages(f: &MessageFilter) -> (r: Statement)
    ensures
        sql::says(r, "SELECT COUNT(*) FROM messages"@ + where_text(*f), where_values(*f)),
        r.sql@ == meaning::query_text(message_laws::count_query(*f)),
{
    proof {
        message_laws::lemma_count_text(*f);
    }
    let (condition, params) = build_where_clause(f);
    let mut out = "SELECT COUNT(*) FROM messages".to_owned();
    out.append(condition.as_str());
    Statement { sql: out, params }
}

/// The statement for one message.
pub fn get_message(id: Uuid) -> (r: Statement)
    ensures
        sql::says(
            r,
            SELECT_MESSAGES@ + " WHERE id = ?1"@,
            seq![ValueText::Text(id::uuid_text(id))],
        ),
        r.sql@ == meaning::query_text(message_laws::message_query()),
{
    proof {
        message_laws::lemma_message_text();
    }
    let mut out = SELECT_MESSAGES.to_owned();
    out.append(" WHERE id = ?1");
    let params = vec![SqlValue::Text(id.text())];
    proof {
        assert(sql::values(params@) =~= seq![ValueText::Text(id::uuid_text(id))]);
    }
    Statement { sql: out, params }
}

/// The values of the statement for the messages of a thread.
pub open spec fn thread_values(thread_id: Uuid, limit: u32) -> Seq<ValueText> {
    seq![ValueText::Text(id::uuid_text(thread_id)), ValueText::Integer(limit as int)]
}

/// The statement for the messages of a thread, the oldest first.
pub fn list_messages_in_thread(thread_id: Uuid, limit: u32) -> (r: Statement)
    ensures
        sql::says(
            r,
            SELECT_MESSAGES@ + " WHERE thread_id = ?1 ORDER BY timestamp ASC LIMIT ?2"@,
            thread_values(thread_id, limit),
        ),
        r.sql@ == meaning::query_text(message_laws::thread_query()),
{
    proof {
        message_laws::lemma_thread_text();
    }
    let mut out = SELECT_MESSAGES.to_owned();
    out.append(" WHERE thread_id = ?1 ORDER BY timestamp ASC LIMIT ?2");
    let params = vec![SqlValue::Text(thread_id.text()), SqlValue::Integer(limit as i64)];
    proof {
        assert(sql::values(params@) =~= thread_values(thread_id, limit));
    }
    Statement { sql: out, params }
}

/// A query as one phrase of the full-text search: in quotes, with the quotes in
/// it doubled.
pub open spec fn phrase(query: Seq<char>) -> Seq<char> {
    "\""@ + text::replace_all(query, "\""@, "\"\""@) + "\""@
}

/// The statement that searches for a phrase.
pub const SEARCH_MESSAGES: &'static str =
    "SELECT m.id, m.channel_type, m.thread_id, m.sender_id, m.content_text, m.content_html, m.content_subject, m.attachments_json, m.timestamp, m.metadata_json, m.priority_score, m.category, m.is_read, m.is_archived, m.external_id, m.received_on_channel_id
             FROM messages_fts fts
             JOIN messages m ON m.rowid = fts.rowid
             WHERE messages_fts MATCH ?1
             ORDER BY rank
             LIMIT ?2";

/// The query as one phrase of the full-text search.
pub fn quote_phrase(query: &str) -> (r: String)
    ensures
        r@ == phrase(query@),
{
    let v = to_chars(query);
    let one = to_chars("\"");
    let two = to_chars("\"\"");
    let doubled = replace_chars(v.as_slice(), one.as_slice(), two.as_slice());
    let mut out = "\"".to_owned();
    out.append(from_chars(doubled.as_slice()).as_str());
    out.append("\"");
    out
}

/// The values of the statement that searches for a phrase.
pub open spec fn search_values(query: Seq<char>, limit: u32) -> Seq<ValueText> {
    seq![ValueText::Text(phrase(query)), ValueText::Integer(limit as int)]
}

/// The statement that searches for a phrase.
pub fn search_messages(query: &str, limit: u32) -> (r: Statement)
    ensures
        sql::says(r, SEARCH_MESSAGES@, search_values(query@, limit)),
        r.sql@ == meaning::query_text(message_laws::phrase_query()),
{
    let params = vec![SqlValue::Text(quote_phrase(query)), SqlValue::Integer(limit as i64)];
    proof {
        assert(sql::values(params@) =~= search_values(query@, limit));
        message_laws::lemma_phrase_query_text();
    }
    statement(SEARCH_MESSAGES, params)
}

// ---------------------------------------------------------------------------
// Reading
// ---------------------------------------------------------------------------

/// A row of the table of messages. Attachments have been read from their JSON, as
/// none where that cannot be read.
#[derive(Debug)]
pub struct MessageRow {
    pub id: String,
    pub channel: String,
    pub thread_id: String,
    pub sender_id: String,
    pub text: Option<String>,
    pub html: Option<String>,
    pub subject: Option<String>,
    pub attachments: Vec<Attachment>,
    pub timestamp: String,
    pub metadata_json: Option<String>,
    pub priority: Option<i32>,
    pub category: Option<String>,
    pub is_read: i32,
    pub is_archived: i32,
    pub external_id: Option<String>,
    pub received_on_channel_id: Option<String>,
}

/// The first thing in a row that cannot be read.
pub open spec fn message_row_error(row: MessageRow) -> Option<RowError> {
    if !sql::stores_channel(row.channel@) {
        Some(RowError::Invalid(sql::unknown_channel(row.channel@)))
    } else if id::uuid_parsed(row.id@) is Err {
        Some(RowError::Invalid(id::uuid_parsed(row.id@)->Err_0))
    } else if id::uuid_parsed(row.thread_id@) is Err {
        Some(RowError::Invalid(id::uuid_parsed(row.thread_id@)->Err_0))
    } else if id::uuid_parsed(row.sender_id@) is Err {
        Some(RowError::Invalid(id::uuid_parsed(row.sender_id@)->Err_0))
    } else if time::rfc3339_parsed(row.timestamp@) is Err {
        Some(RowError::Invalid(time::rfc3339_parsed(row.timestamp@)->Err_0))
    } else if row.received_on_channel_id matches Some(c) && id::uuid_parsed(c@) is Err {
        Some(RowError::Invalid(id::uuid_parsed(row.received_on_channel_id->0@)->Err_0))
    } else {
        None
    }
}

/// The priority that a stored number gives: that of its lowest byte, where it
/// is one.
pub open spec fn priority_read(p: Option<PriorityScore>, v: Option<i32>) -> bool {
    match v {
        None => p is None,
        Some(n) => if 1 <= (n as u8) <= 5 {
            p matches Some(s) && s@ == n as u8
        } else {
            p is None
        },
    }
}

/// The metadata that a JSON text writes; none where it cannot be read.
pub open spec fn metadata_read(json_text: Option<Seq<char>>) -> Seq<(Seq<char>, Seq<char>)> {
    match json_text {
        Some(t) => match json::json_pairs(t) {
            Ok(pairs) => pairs,
            Err(_) => Seq::empty(),
        },
        None => Seq::empty(),
    }
}

/// Reads the metadata. What was stored of metadata is read as the same.
fn read_metadata(json_text: &Option<String>) -> (r: TextMap)
    ensures
        r@ == metadata_read(message::optional_text(*json_text)),
        r.well_formed(),
        forall|q: Seq<(Seq<char>, Seq<char>)>|
            (json_text matches Some(t) && text_map::distinct_keys(q)
                && #[trigger] json::json_object(q) == Ok::<Seq<char>, Seq<char>>(t@))
                ==> text_map::same_entries(r@, q),
{
    if let Some(t) = json_text {
        if let Ok(m) = TextMap::from_json(t.as_str()) {
            return m;
        }
    }
    let none = TextMap::new();
    proof {
        assert(none@ =~= Seq::empty());
    }
    none
}

/// `m` is what the row holds.
pub open spec fn message_read(m: Message, row: MessageRow) -> bool {
    &&& m.id.bits == id::uuid_parsed(row.id@)->Ok_0
    &&& channel::channel_db_text(m.channel) == row.channel@
    &&& m.thread_id.bits == id::uuid_parsed(row.thread_id@)->Ok_0
    &&& m.sender_id.bits == id::uuid_parsed(row.sender_id@)->Ok_0
    &&& m.content == (MessageContent {
        text: row.text,
        html: row.html,
        subject: row.subject,
        attachments: row.attachments,
    })
    &&& sql::time_is(m.timestamp, time::rfc3339_parsed(row.timestamp@)->Ok_0)
    &&& m.metadata@ == metadata_read(message::optional_text(row.metadata_json))
    &&& m.metadata.well_formed()
    &&& priority_read(m.priority, row.priority)
    &&& m.category == row.category
    &&& m.is_read == (row.is_read != 0)
    &&& m.is_archived == (row.is_archived != 0)
    &&& m.external_id == row.external_id
    &&& match row.received_on_channel_id {
        Some(c) => m.received_on_channel_id matches Some(x) && x.bits == id::uuid_parsed(
            c@,
        )->Ok_0,
        None => m.received_on_channel_id is None,
    }
}

/// The row holds `m` as it is stored.
pub open spec fn holds(row: MessageRow, m: Message) -> bool {
    &&& row.id@ == id::uuid_text(m.id)
    &&& row.channel@ == channel::channel_db_text(m.channel)
    &&& row.thread_id@ == id::uuid_text(m.thread_id)
    &&& row.sender_id@ == id::uuid_text(m.sender_id)
    &&& row.text == m.content.text
    &&& row.html == m.content.html
    &&& row.subject == m.content.subject
    &&& row.attachments == m.content.attachments
    &&& sql::storable_time(m.timestamp)
    &&& row.timestamp@ == sql::time_text(m.timestamp)
    &&& m.metadata.well_formed()
    &&& row.metadata_json matches Some(t) && json::json_object(m.metadata@) == Ok::<
        Seq<char>,
        Seq<char>,
    >(t@)
    &&& match m.priority {
        Some(p) => 1 <= p@ <= 5 && row.priority == Some(p@ as i32),
        None => row.priority is None,
    }
    &&& row.category == m.category
    &&& row.is_read == if m.is_read {
        1i32
    } else {
        0i32
    }
    &&& row.is_archived == if m.is_archived {
        1i32
    } else {
        0i32
    }
    &&& row.external_id == m.external_id
    &&& match m.received_on_channel_id {
        Some(c) => row.received_on_channel_id matches Some(t) && t@ == id::uuid_text(c),
        None => row.received_on_channel_id is None,
    }
}

/// `a` and `b` are the same message; their metadata may stand in another order.
pub open spec fn same_message(a: Message, b: Message) -> bool {
    &&& a == (Message { metadata: a.metadata, ..b })
    &&& text_map::same_entries(a.metadata@, b.metadata@)
}

/// The message that a row holds. A message that was stored is read as it was.
pub fn row_to_message(row: MessageRow) -> (r: Result<Message, CoreError>)
    ensures
        match message_row_error(row) {
            Some(x) => r is Err && sql::is_row_error(r->Err_0, x),
            None => r is Ok && message_read(r->Ok_0, row),
        },
        forall|m: Message| #[trigger] holds(row, m) ==> r is Ok && same_message(r->Ok_0, m),
{
    let ghost given = row;
    let channel = match read_channel(row.channel.as_str()) {
        Ok(c) => c,
        Err(e) => {
            proof {
                assert forall|m: Message| !#[trigger] holds(given, m) by {
                    if holds(given, m) {
                        assert(channel::channel_db_text(m.channel) == given.channel@);
                    }
                }
            }
            return Err(e);
        },
    };
    let id = match read_id(row.id.as_str()) {
        Ok(x) => x,
        Err(e) => {
            proof {
                assert forall|m: Message| !#[trigger] holds(given, m) by {
                    if holds(given, m) {
                        assert(given.id@ == id::uuid_text(m.id));
                    }
                }
            }
            return Err(e);
        },
    };
    let thread_id = match read_id(row.thread_id.as_str()) {
        Ok(x) => x,
        Err(e) => {
            proof {
                assert forall|m: Message| !#[trigger] holds(given, m) by {
                    if holds(given, m) {
                        assert(given.thread_id@ == id::uuid_text(m.thread_id));
                    }
                }
            }
            return Err(e);
        },
    };
    let sender_id = match read_id(row.sender_id.as_str()) {
        Ok(x) => x,
        Err(e) => {
            proof {
                assert forall|m: Message| !#[trigger] holds(given, m) by {
                    if holds(given, m) {
                        assert(given.sender_id@ == id::uuid_text(m.sender_id));
                    }
                }
            }
            return Err(e);
        },
    };
    let timestamp = match read_time(row.timestamp.as_str()) {
        Ok(t) => t,
        Err(e) => {
            proof {
                assert forall|m: Message| !#[trigger] holds(given, m) by {
                    if holds(given, m) {
                        assert(given.timestamp@ == sql::time_text(m.timestamp));
                    }
                }
            }
            return Err(e);
        },
    };
    let mut received_on: Option<Uuid> = None;
    if let Some(c) = &row.received_on_channel_id {
        match read_id(c.as_str()) {
            Ok(x) => {
                received_on = Some(x);
            },
            Err(e) => {
                proof {
                    assert forall|m: Message| !#[trigger] holds(given, m) by {
                        if holds(given, m) {
                            assert(c@ == id::uuid_text(m.received_on_channel_id->0));
                        }
                    }
                }
                return Err(e);
            },
        }
    }
    let priority = match row.priority {
        Some(n) => PriorityScore::new(
            #[verifier::truncate]
            (n as u8),
        ),
        None => None,
    };
    let metadata = read_metadata(&row.metadata_json);
    let m = Message {
        id,
        channel,
        thread_id,
        sender_id,
        content: MessageContent {
            text: row.text,
            html: row.html,
            subject: row.subject,
            attachments: row.attachments,
        },
        timestamp,
        metadata,
        priority,
        category: row.category,
        is_read: row.is_read != 0,
        is_archived: row.is_archived != 0,
        external_id: row.external_id,
        received_on_channel_id: received_on,
    };
    proof {
        assert forall|x: Message| #[trigger] holds(given, x) implies same_message(
            m,
            x,
        ) by {
            assert(channel::channel_db_text(x.channel) == given.channel@);
            assert(given.id@ == id::uuid_text(x.id));
            assert(given.thread_id@ == id::uuid_text(x.thread_id));
            assert(given.sender_id@ == id::uuid_text(x.sender_id));
            assert(given.timestamp@ == sql::time_text(x.timestamp));
            if let Some(c) = x.received_on_channel_id {
                assert(given.received_on_channel_id->0@ == id::uuid_text(c));
            }
            if let Some(p) = x.priority {
                message::same_score(m.priority->0, p);
            }
            assert(m.content == x.content);
            assert(json::json_object(x.metadata@) == Ok::<Seq<char>, Seq<char>>(
                given.metadata_json->0@,
            ));
        }
    }
    Ok(m)
}

// ---------------------------------------------------------------------------
// Laws
// ---------------------------------------------------------------------------

/// A filter has a value for each of its parameters, and at most three.
pub proof fn filter_values_match_parameters(f: MessageFilter)
    ensures
        where_values(f).len() == 1 + (if f.channel is Some {
            1int
        } else {
            0
        }) + (if f.min_priority is Some {
            1int
        } else {
            0
        }),
        f.min_priority is Some ==> priority_index(f) == where_values(f).len(),
{
}

/// A character of `s` at index `i` that is a quote has one beside it, and the
/// quotes come in pairs.
pub open spec fn quotes_doubled(s: Seq<char>) -> bool
    decreases s.len(),
{
    if s.len() == 0 {
        true
    } else if s[0] == '"' {
        s.len() >= 2 && s[1] == '"' && quotes_doubled(s.skip(2))
    } else {
        quotes_doubled(s.drop_first())
    }
}

proof fn lemma_quotes_doubled(query: Seq<char>)
    ensures
        quotes_doubled(text::replace_all(query, "\""@, "\"\""@)),
    decreases query.len(),
{
    reveal_strlit("\"");
    reveal_strlit("\"\"");
    let p = "\""@;
    let q = "\"\""@;
    if query.len() > 0 {
        let out = text::replace_all(query, p, q);
        if text::occurs_at(query, p, 0) {
            let rest = query.skip(1);
            lemma_quotes_doubled(rest);
            assert(out.skip(2) =~= text::replace_all(rest, p, q));
            assert(out[0] == '"' && out[1] == '"');
        } else {
            let rest = query.drop_first();
            lemma_quotes_doubled(rest);
            assert(out.drop_first() =~= text::replace_all(rest, p, q));
            assert(out[0] == query[0]);
            assert(query[0] != '"') by {
                if query[0] == '"' {
                    assert(query.subrange(0, 1) =~= p);
                }
            }
        }
    } else {
        assert(!text::occurs_at(query, p, 0));
    }
}

/// Whatever the query, it stays one phrase: between the quotes round it, quotes
/// stand only in pairs.
pub proof fn query_stays_one_phrase(query: Seq<char>)
    ensures
        phrase(query).len() >= 2,
        phrase(query)[0] == '"',
        phrase(query).last() == '"',
        quotes_doubled(phrase(query).subrange(1, phrase(query).len() - 1)),
{
    reveal_strlit("\"");
    lemma_quotes_doubled(query);
    let inner = text::replace_all(query, "\""@, "\"\""@);
    assert(phrase(query).subrange(1, phrase(query).len() - 1) =~= inner);
}

} // verus!
