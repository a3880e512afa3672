//! What the statements about messages do.
use vstd::prelude::*;

use crate::id;
use crate::id::Uuid;
use crate::store::meaning;
use crate::store::meaning::{
    Column, Condition, Conflict, Database, Direction, Found, Insert, Operand, Query, Row,
    Selected, Source, Update,
};
use crate::store::messages;
use crate::store::messages::{
    MessageFilter, INSERT_MESSAGE, SEARCH_MESSAGES, SELECT_MESSAGES,
};
use crate::store::sql;
use crate::store::sql::ValueText;
use crate::text;
use crate::types::channel;
use crate::types::message;
use crate::types::{Message, PriorityScore};

verus! {

// ---------------------------------------------------------------------------
// Storing
// ---------------------------------------------------------------------------

/// The columns of the table of messages.
pub open spec fn message_columns() -> Seq<Seq<char>> {
    seq![
        "id"@,
        "channel_type"@,
        "thread_id"@,
        "sender_id"@,
        "content_text"@,
        "content_html"@,
        "content_subject"@,
        "attachments_json"@,
        "timestamp"@,
        "metadata_json"@,
        "priority_score"@,
        "category"@,
        "is_read"@,
        "is_archived"@,
        "external_id"@,
        "received_on_channel_id"@,
    ]
}

/// The statement that stores a message. The first of those that a service gives
/// the same identifier stays.
pub open spec fn message_insert() -> Insert {
    Insert {
        table: "messages"@,
        columns: message_columns(),
        values: meaning::parameters(16),
        conflict: Conflict::KeepOld(seq!["channel_type"@, "external_id"@]),
        gap: "\n             "@,
    }
}

/// The row under which a message is stored.
pub open spec fn stored(m: Message, attachments_json: Seq<char>, metadata_json: Seq<char>) -> Row {
    meaning::new_row(
        message_insert(),
        messages::message_values(m, attachments_json, metadata_json),
        ValueText::Null,
    )
}

/// The names of the columns, one after the other.
proof fn lemma_message_columns()
    ensures
        meaning::listed(message_columns(), ", "@) == "id, channel_type, thread_id, sender_id, content_text, content_html, content_subject, attachments_json, timestamp, metadata_json, priority_score, category, is_read, is_archived, external_id, received_on_channel_id"@,
{
    reveal_strlit(", ");
    reveal_strlit("id, channel_type, thread_id, sender_id, content_text, content_html, content_subject, attachments_json, timestamp, metadata_json, priority_score, category, is_read, is_archived, external_id, received_on_channel_id");
    reveal_strlit("id");
    reveal_strlit("channel_type");
    reveal_strlit("thread_id");
    reveal_strlit("sender_id");
    reveal_strlit("content_text");
    reveal_strlit("content_html");
    reveal_strlit("content_subject");
    reveal_strlit("attachments_json");
    reveal_strlit("timestamp");
    reveal_strlit("metadata_json");
    reveal_strlit("priority_score");
    reveal_strlit("category");
    reveal_strlit("is_read");
    reveal_strlit("is_archived");
    reveal_strlit("external_id");
    reveal_strlit("received_on_channel_id");
    reveal_with_fuel(meaning::listed, 17);
    assert(meaning::listed(message_columns(), ", "@) =~= "id, channel_type, thread_id, sender_id, content_text, content_html, content_subject, attachments_json, timestamp, metadata_json, priority_score, category, is_read, is_archived, external_id, received_on_channel_id"@);
}

/// The names of the columns differ.
proof fn lemma_column_names()
    ensures
        "id"@.len() == 2,
        "channel_type"@.len() == 12,
        "thread_id"@.len() == 9,
        "sender_id"@.len() == 9,
        "content_text"@.len() == 12,
        "content_html"@.len() == 12,
        "content_subject"@.len() == 15,
        "attachments_json"@.len() == 16,
        "timestamp"@.len() == 9,
        "metadata_json"@.len() == 13,
        "priority_score"@.len() == 14,
        "category"@.len() == 8,
        "is_read"@.len() == 7,
        "is_archived"@.len() == 11,
        "external_id"@.len() == 11,
        "received_on_channel_id"@.len() == 22,
        "channel_type"@[1] == 'h',
        "thread_id"@[0] == 't',
        "thread_id"@[1] == 'h',
        "sender_id"@[0] == 's',
        "content_text"@[1] == 'o',
        "content_text"@[8] == 't',
        "content_html"@[1] == 'o',
        "content_html"@[8] == 'h',
        "timestamp"@[0] == 't',
        "timestamp"@[1] == 'i',
        "is_archived"@[0] == 'i',
        "external_id"@[0] == 'e',
{
    reveal_strlit("id");
    reveal_strlit("channel_type");
    reveal_strlit("thread_id");
    reveal_strlit("sender_id");
    reveal_strlit("content_text");
    reveal_strlit("content_html");
    reveal_strlit("content_subject");
    reveal_strlit("attachments_json");
    reveal_strlit("timestamp");
    reveal_strlit("metadata_json");
    reveal_strlit("priority_score");
    reveal_strlit("category");
    reveal_strlit("is_read");
    reveal_strlit("is_archived");
    reveal_strlit("external_id");
    reveal_strlit("received_on_channel_id");
}

/// The parameters of the statement, one after the other.
proof fn lemma_sixteen_parameters()
    ensures
        meaning::listed(
            meaning::parameters(16).map_values(|w: meaning::Written| meaning::written_text(w)),
            ", "@,
        ) == "?1, ?2, ?3, ?4, ?5, ?6, ?7, ?8, ?9, ?10, ?11, ?12, ?13, ?14, ?15, ?16"@,
{
    let items = meaning::parameters(16).map_values(|w: meaning::Written| meaning::written_text(w));
    reveal_strlit(", ");
    reveal_strlit("?");
    reveal_strlit("?1, ?2, ?3, ?4, ?5, ?6, ?7, ?8, ?9, ?10, ?11, ?12, ?13, ?14, ?15, ?16");
    reveal_strlit("1");
    reveal_strlit("2");
    reveal_strlit("3");
    reveal_strlit("4");
    reveal_strlit("5");
    reveal_strlit("6");
    reveal_strlit("7");
    reveal_strlit("8");
    reveal_strlit("9");
    reveal_strlit("10");
    reveal_strlit("11");
    reveal_strlit("12");
    reveal_strlit("13");
    reveal_strlit("14");
    reveal_strlit("15");
    reveal_strlit("16");
    meaning::lemma_small_numbers();
    reveal_with_fuel(meaning::listed, 17);
    assert(meaning::listed(items, ", "@) =~= "?1, ?2, ?3, ?4, ?5, ?6, ?7, ?8, ?9, ?10, ?11, ?12, ?13, ?14, ?15, ?16"@);
}

/// The statement that stores a message is the one that is meant.
pub proof fn lemma_insert_text()
    ensures
        meaning::insert_text(message_insert()) == INSERT_MESSAGE@,
{
    lemma_message_columns();
    lemma_sixteen_parameters();
    let keys = seq!["channel_type"@, "external_id"@];
    reveal_strlit("INSERT INTO messages (id, channel_type, thread_id, sender_id, content_text, content_html, content_subject, attachments_json, timestamp, metadata_json, priority_score, category, is_read, is_archived, external_id, received_on_channel_id)\n             VALUES (?1, ?2, ?3, ?4, ?5, ?6, ?7, ?8, ?9, ?10, ?11, ?12, ?13, ?14, ?15, ?16)\n             ON CONFLICT(channel_type, external_id) WHERE external_id IS NOT NULL DO NOTHING");
    reveal_strlit("INSERT INTO ");
    reveal_strlit("messages");
    reveal_strlit(" (");
    reveal_strlit(")");
    reveal_strlit("\n             ");
    reveal_strlit("VALUES (");
    reveal_strlit(", ");
    reveal_strlit("ON CONFLICT(");
    reveal_strlit(") WHERE ");
    reveal_strlit(" IS NOT NULL DO NOTHING");
    reveal_strlit("channel_type");
    reveal_strlit("external_id");
    reveal_strlit("id, channel_type, thread_id, sender_id, content_text, content_html, content_subject, attachments_json, timestamp, metadata_json, priority_score, category, is_read, is_archived, external_id, received_on_channel_id");
    reveal_strlit("?1, ?2, ?3, ?4, ?5, ?6, ?7, ?8, ?9, ?10, ?11, ?12, ?13, ?14, ?15, ?16");
    reveal_with_fuel(meaning::listed, 3);
    assert(meaning::listed(keys, ", "@) =~= "channel_type"@ + ", "@ + "external_id"@);
    assert(meaning::insert_text(message_insert()) =~= INSERT_MESSAGE@);
}

/// A message is stored field by field: each column holds what its name says.
pub proof fn a_message_is_stored_field_by_field(
    m: Message,
    attachments_json: Seq<char>,
    metadata_json: Seq<char>,
)
    ensures
        meaning::insert_text(message_insert()) == INSERT_MESSAGE@,
        stored(m, attachments_json, metadata_json)["id"@] == ValueText::Text(id::uuid_text(m.id)),
        stored(m, attachments_json, metadata_json)["channel_type"@] == ValueText::Text(channel::channel_db_text(m.channel)),
        stored(m, attachments_json, metadata_json)["thread_id"@] == ValueText::Text(id::uuid_text(m.thread_id)),
        stored(m, attachments_json, metadata_json)["sender_id"@] == ValueText::Text(id::uuid_text(m.sender_id)),
        stored(m, attachments_json, metadata_json)["content_text"@] == sql::optional(message::optional_text(m.content.text)),
        stored(m, attachments_json, metadata_json)["content_html"@] == sql::optional(message::optional_text(m.content.html)),
        stored(m, attachments_json, metadata_json)["content_subject"@] == sql::optional(message::optional_text(m.content.subject)),
        stored(m, attachments_json, metadata_json)["attachments_json"@] == ValueText::Text(attachments_json),
        stored(m, attachments_json, metadata_json)["timestamp"@] == ValueText::Text(sql::time_text(m.timestamp)),
        stored(m, attachments_json, metadata_json)["metadata_json"@] == ValueText::Text(metadata_json),
        stored(m, attachments_json, metadata_json)["priority_score"@] == (match m.priority {
            Some(p) => ValueText::Integer(p@ as int),
            None => ValueText::Null,
        }),
        stored(m, attachments_json, metadata_json)["category"@] == sql::optional(message::optional_text(m.category)),
        stored(m, attachments_json, metadata_json)["is_read"@] == ValueText::Integer(if m.is_read { 1 } else { 0 }),
        stored(m, attachments_json, metadata_json)["is_archived"@] == ValueText::Integer(if m.is_archived { 1 } else { 0 }),
        stored(m, attachments_json, metadata_json)["external_id"@] == sql::optional(message::optional_text(m.external_id)),
        stored(m, attachments_json, metadata_json)["received_on_channel_id"@] == (match m.received_on_channel_id {
            Some(c) => ValueText::Text(id::uuid_text(c)),
            None => ValueText::Null,
        }),
{
    lemma_insert_text();
    lemma_column_names();
    reveal_with_fuel(meaning::filled, 17);
}

/// Of the messages that a service gives the same identifier, the first stays:
/// storing the second changes nothing.
pub proof fn the_first_of_the_same_message_stays(
    rows: Set<Row>,
    a: Message,
    b: Message,
    old_json: (Seq<char>, Seq<char>),
    new_json: (Seq<char>, Seq<char>),
)
    requires
        rows.contains(stored(a, old_json.0, old_json.1)),
        a.channel == b.channel,
        message::optional_text(b.external_id) is Some,
        message::optional_text(a.external_id) == message::optional_text(b.external_id),
    ensures
        meaning::after_insert(
            rows,
            message_insert(),
            messages::message_values(b, new_json.0, new_json.1),
            ValueText::Null,
        ) == rows,
{
    let old = stored(a, old_json.0, old_json.1);
    let new = stored(b, new_json.0, new_json.1);
    let c = message_insert().conflict;
    a_message_is_stored_field_by_field(a, old_json.0, old_json.1);
    a_message_is_stored_field_by_field(b, new_json.0, new_json.1);
    assert(meaning::in_the_way(c, old, new));
    let f = |r: Row|
        if meaning::in_the_way(c, r, new) {
            meaning::kept_of(c, r, new)
        } else {
            r
        };
    assert forall|r: Row| #[trigger] rows.map(f).contains(r) <==> rows.contains(r) by {
        if rows.contains(r) {
            assert(f(r) == r);
        }
    }
    assert(rows.map(f) =~= rows);
}

/// A message that a service gives no identifier, or one that no stored message
/// of the channel has, is added, and nothing that was stored changes.
pub proof fn a_new_message_is_added(
    rows: Set<Row>,
    m: Message,
    attachments_json: Seq<char>,
    metadata_json: Seq<char>,
)
    requires
        m.external_id is Some ==> forall|r: Row|
            #[trigger] rows.contains(r) ==> !(r["channel_type"@] == ValueText::Text(
                channel::channel_db_text(m.channel),
            ) && r["external_id"@] == ValueText::Text(m.external_id->0@)),
    ensures
        meaning::after_insert(
            rows,
            message_insert(),
            messages::message_values(m, attachments_json, metadata_json),
            ValueText::Null,
        ) == rows.insert(stored(m, attachments_json, metadata_json)),
{
    let new = stored(m, attachments_json, metadata_json);
    let c = message_insert().conflict;
    a_message_is_stored_field_by_field(m, attachments_json, metadata_json);
    assert forall|r: Row| rows.contains(r) implies !#[trigger] meaning::in_the_way(c, r, new) by {
        let keys = seq!["channel_type"@, "external_id"@];
        if meaning::in_the_way(c, r, new) {
            assert(r[keys[0]] == new[keys[0]]);
            assert(r[keys[1]] == new[keys[1]] && !(new[keys[1]] is Null));
        }
    }
}

// ---------------------------------------------------------------------------
// Reading
// ---------------------------------------------------------------------------

/// A query for whole messages.
pub open spec fn whole_messages(
    conditions: Seq<Condition>,
    order: Seq<(Column, Direction)>,
    limit: Option<Operand>,
    offset: Option<Operand>,
) -> Query {
    Query {
        selected: Selected::Columns(
            message_columns().map_values(|name: Seq<char>| meaning::column(name)),
        ),
        source: Source::Table("messages"@),
        conditions,
        order,
        limit,
        offset,
        gap: " "@,
    }
}

/// The start of the text of a query for whole messages.
pub proof fn lemma_whole_messages(
    conditions: Seq<Condition>,
    order: Seq<(Column, Direction)>,
    limit: Option<Operand>,
    offset: Option<Operand>,
)
    ensures
        meaning::query_text(whole_messages(conditions, order, limit, offset)) == SELECT_MESSAGES@
            + meaning::tail_text(whole_messages(conditions, order, limit, offset)),
{
    let q = whole_messages(conditions, order, limit, offset);
    let columns = message_columns().map_values(|name: Seq<char>| meaning::column(name));
    let items = columns.map_values(|c: Column| meaning::column_text(c));
    assert(items =~= message_columns());
    lemma_message_columns();
    reveal_strlit("SELECT id, channel_type, thread_id, sender_id, content_text, content_html, content_subject, attachments_json, timestamp, metadata_json, priority_score, category, is_read, is_archived, external_id, received_on_channel_id FROM messages");
    reveal_strlit("SELECT ");
    reveal_strlit(" ");
    reveal_strlit("FROM ");
    reveal_strlit("messages");
    reveal_strlit("id, channel_type, thread_id, sender_id, content_text, content_html, content_subject, attachments_json, timestamp, metadata_json, priority_score, category, is_read, is_archived, external_id, received_on_channel_id");
    assert(SELECT_MESSAGES@ =~= "SELECT "@ + meaning::listed(items, ", "@) + " "@ + "FROM "@
        + "messages"@);
    assert(meaning::query_text(q) =~= SELECT_MESSAGES@ + meaning::tail_text(q));
}

/// What is read of a stored message is what was stored of it, column by column,
/// in the order in which both statements name them.
pub proof fn what_is_read_is_what_was_stored(
    m: Message,
    attachments_json: Seq<char>,
    metadata_json: Seq<char>,
    q: Query,
    i: int,
)
    requires
        q.selected == whole_messages(q.conditions, q.order, q.limit, q.offset).selected,
        0 <= i < 16,
    ensures
        q.selected matches Selected::Columns(columns) && columns.len() == 16 && meaning::value_of(
            meaning::alone(stored(m, attachments_json, metadata_json)),
            columns[i],
        ) == messages::message_values(m, attachments_json, metadata_json)[i],
{
    lemma_column_names();
    reveal_with_fuel(meaning::filled, 17);
    let columns = message_columns().map_values(|name: Seq<char>| meaning::column(name));
    assert(columns.len() == 16);
    if i < 8 {
        assert(i == 0 || i == 1 || i == 2 || i == 3 || i == 4 || i == 5 || i == 6 || i == 7);
    } else {
        assert(i == 8 || i == 9 || i == 10 || i == 11 || i == 12 || i == 13 || i == 14 || i == 15);
    }
}

/// The conditions of a filter.
pub open spec fn filter_conditions(f: MessageFilter) -> Seq<Condition> {
    seq![Condition::Equal(meaning::column("is_archived"@), Operand::Parameter(1))] + (
    match f.channel {
        Some(_) => seq![
            Condition::Equal(meaning::column("channel_type"@), Operand::Parameter(2)),
        ],
        None => Seq::empty(),
    }) + (if f.unread_only {
        seq![Condition::Equal(meaning::column("is_read"@), Operand::Number(0))]
    } else {
        Seq::empty()
    }) + (match f.min_priority {
        Some(_) => seq![
            Condition::Present(meaning::column("priority_score"@)),
            Condition::AtLeast(
                meaning::column("priority_score"@),
                Operand::Parameter(messages::priority_index(f)),
            ),
        ],
        None => Seq::empty(),
    })
}

/// The query for a page of messages.
pub open spec fn page_query(f: MessageFilter) -> Query {
    let n = messages::where_values(f).len();
    whole_messages(
        filter_conditions(f),
        seq![(meaning::column("timestamp"@), Direction::Down)],
        Some(Operand::Parameter(n + 1)),
        Some(Operand::Parameter(n + 2)),
    )
}

/// The query that counts messages.
pub open spec fn count_query(f: MessageFilter) -> Query {
    Query {
        selected: Selected::Count,
        source: Source::Table("messages"@),
        conditions: filter_conditions(f),
        order: Seq::empty(),
        limit: None,
        offset: None,
        gap: " "@,
    }
}

/// The text of a filter's conditions.
pub proof fn lemma_where_text(f: MessageFilter)
    ensures
        " "@ + "WHERE "@ + meaning::conditions_text(filter_conditions(f)) == messages::where_text(f),
{
    let show = |c: Condition| meaning::condition_text(c);
    let archived = Condition::Equal(meaning::column("is_archived"@), Operand::Parameter(1));
    let on_channel = Condition::Equal(meaning::column("channel_type"@), Operand::Parameter(2));
    let unread = Condition::Equal(meaning::column("is_read"@), Operand::Number(0));
    let present = Condition::Present(meaning::column("priority_score"@));
    let n = messages::priority_index(f);
    let least = Condition::AtLeast(meaning::column("priority_score"@), Operand::Parameter(n));
    meaning::lemma_small_numbers();
    reveal_strlit(" ");
    reveal_strlit("WHERE ");
    reveal_strlit(" = ");
    reveal_strlit(" >= ");
    reveal_strlit(" IS NOT NULL");
    reveal_strlit(" AND ");
    reveal_strlit("?");
    reveal_strlit("0");
    reveal_strlit("1");
    reveal_strlit("2");
    reveal_strlit("3");
    reveal_strlit("is_archived");
    reveal_strlit("channel_type");
    reveal_strlit("is_read");
    reveal_strlit("priority_score");
    reveal_strlit(" WHERE is_archived = ?1");
    reveal_strlit(" AND channel_type = ?");
    reveal_strlit(" AND is_read = 0");
    reveal_strlit(" AND priority_score IS NOT NULL AND priority_score >= ?");
    let first = seq![show(archived)];
    let and = " AND "@;
    assert(" "@ + "WHERE "@ + meaning::listed(first, and) =~= " WHERE is_archived = ?1"@);
    let second = if f.channel is Some {
        first.push(show(on_channel))
    } else {
        first
    };
    if f.channel is Some {
        meaning::lemma_listed_push(first, and, show(on_channel));
        assert(and + show(on_channel) =~= " AND channel_type = ?"@ + text::decimal(2));
    }
    let third = if f.unread_only {
        second.push(show(unread))
    } else {
        second
    };
    if f.unread_only {
        meaning::lemma_listed_push(second, and, show(unread));
        assert(and + show(unread) =~= " AND is_read = 0"@);
    }
    let fourth = if f.min_priority is Some {
        third.push(show(present)).push(show(least))
    } else {
        third
    };
    if f.min_priority is Some {
        meaning::lemma_listed_push(third, and, show(present));
        meaning::lemma_listed_push(third.push(show(present)), and, show(least));
        assert(and + show(present) + and + show(least)
            =~= " AND priority_score IS NOT NULL AND priority_score >= ?"@ + text::decimal(n));
    }
    assert(filter_conditions(f).map_values(show) =~= fourth);
    assert(" "@ + "WHERE "@ + meaning::listed(fourth, and) =~= messages::where_text(f));
}

/// The statement for a page of messages is the one that is meant.
pub proof fn lemma_page_text(f: MessageFilter)
    ensures
        meaning::query_text(page_query(f)) == messages::page_text(f),
{
    let q = page_query(f);
    lemma_where_text(f);
    lemma_whole_messages(q.conditions, q.order, q.limit, q.offset);
    let n = messages::where_values(f).len();
    let terms = q.order.map_values(|t: (Column, Direction)| meaning::term_text(t));
    reveal_strlit(" ");
    reveal_strlit("ORDER BY ");
    reveal_strlit("timestamp");
    reveal_strlit(" DESC");
    reveal_strlit("LIMIT ");
    reveal_strlit("OFFSET ");
    reveal_strlit("?");
    reveal_strlit(" ORDER BY timestamp DESC LIMIT ?");
    reveal_strlit(" OFFSET ?");
    assert(terms =~= seq!["timestamp"@ + " DESC"@]);
    assert(" "@ + "ORDER BY "@ + meaning::listed(terms, ", "@) + " "@ + "LIMIT "@ + "?"@
        =~= " ORDER BY timestamp DESC LIMIT ?"@);
    assert(" "@ + "OFFSET "@ + "?"@ =~= " OFFSET ?"@);
    assert(meaning::query_text(q) =~= messages::page_text(f));
}

/// The statement that counts messages is the one that is meant.
pub proof fn lemma_count_text(f: MessageFilter)
    ensures
        meaning::query_text(count_query(f)) == "SELECT COUNT(*) FROM messages"@
            + messages::where_text(f),
{
    lemma_where_text(f);
    reveal_strlit(" ");
    reveal_strlit("SELECT ");
    reveal_strlit("COUNT(*)");
    reveal_strlit("FROM ");
    reveal_strlit("messages");
    reveal_strlit("SELECT COUNT(*) FROM messages");
    assert("SELECT "@ + "COUNT(*)"@ + " "@ + "FROM "@ + "messages"@
        =~= "SELECT COUNT(*) FROM messages"@);
    assert(meaning::query_text(count_query(f)) =~= "SELECT COUNT(*) FROM messages"@
        + messages::where_text(f));
}

/// A filter is about the messages that it describes: archived or not, on the
/// channel, unread, and of the priority that it asks for, and about no others.
/// So for a page of messages and for their number alike.
pub proof fn a_filter_is_about_what_it_describes(
    db: Database,
    f: MessageFilter,
    limit: u32,
    offset: u32,
    m: Message,
    attachments_json: Seq<char>,
    metadata_json: Seq<char>,
)
    ensures
        meaning::query_text(page_query(f)) == messages::page_text(f),
        meaning::query_text(count_query(f)) == "SELECT COUNT(*) FROM messages"@
            + messages::where_text(f),
        ({
            let wanted = {
                &&& m.is_archived == f.archived
                &&& f.channel is Some ==> m.channel == f.channel->0
                &&& f.unread_only ==> !m.is_read
                &&& f.min_priority is Some ==> m.priority is Some && m.priority->0@
                    >= f.min_priority->0
            };
            let found = meaning::alone(stored(m, attachments_json, metadata_json));
            &&& meaning::meets_all(
                db,
                page_query(f).conditions,
                messages::page_values(f, limit, offset),
                found,
            ) <==> wanted
            &&& meaning::meets_all(
                db,
                count_query(f).conditions,
                messages::where_values(f),
                found,
            ) <==> wanted
        }),
{
    lemma_page_text(f);
    lemma_count_text(f);
    let values = messages::where_values(f);
    let params = messages::page_values(f, limit, offset);
    assert(params.take(values.len() as int) =~= values);
    assert(values.take(values.len() as int) =~= values);
    lemma_filter(db, f, params, m, attachments_json, metadata_json);
    lemma_filter(db, f, values, m, attachments_json, metadata_json);
}

#[verifier::spinoff_prover]
proof fn lemma_filter(
    db: Database,
    f: MessageFilter,
    params: Seq<ValueText>,
    m: Message,
    attachments_json: Seq<char>,
    metadata_json: Seq<char>,
)
    requires
        params.len() >= messages::where_values(f).len(),
        params.take(messages::where_values(f).len() as int) == messages::where_values(f),
    ensures
        meaning::meets_all(
            db,
            filter_conditions(f),
            params,
            meaning::alone(stored(m, attachments_json, metadata_json)),
        ) <==> {
            &&& m.is_archived == f.archived
            &&& f.channel is Some ==> m.channel == f.channel->0
            &&& f.unread_only ==> !m.is_read
            &&& f.min_priority is Some ==> m.priority is Some && m.priority->0@
                >= f.min_priority->0
        },
{
    let values = messages::where_values(f);
    let conditions = filter_conditions(f);
    let row = stored(m, attachments_json, metadata_json);
    let found = meaning::alone(row);
    a_message_is_stored_field_by_field(m, attachments_json, metadata_json);
    assert forall|i: int| 0 <= i < values.len() implies params[i] == values[i] by {
        assert(params.take(values.len() as int)[i] == values[i]);
    }
    assert(found[Seq::<char>::empty()] == row);
    let k = if f.channel is Some {
        1int
    } else {
        0
    };
    let u = if f.unread_only {
        1int
    } else {
        0
    };
    assert(conditions[0] == Condition::Equal(
        meaning::column("is_archived"@),
        Operand::Parameter(1),
    ));
    assert(meaning::meets(db, conditions[0], params, found) <==> m.is_archived == f.archived);
    if let Some(c) = f.channel {
        assert(conditions[1] == Condition::Equal(
            meaning::column("channel_type"@),
            Operand::Parameter(2),
        ));
        assert(values[1] == ValueText::Text(channel::channel_db_text(c)));
        if channel::channel_db_text(m.channel) == channel::channel_db_text(c) {
            channel::channel_db_text_is_injective(m.channel, c);
        }
        assert(meaning::meets(db, conditions[1], params, found) <==> m.channel == c);
    }
    if f.unread_only {
        assert(conditions[1 + k] == Condition::Equal(
            meaning::column("is_read"@),
            Operand::Number(0),
        ));
        assert(meaning::meets(db, conditions[1 + k], params, found) <==> !m.is_read);
    }
    if let Some(p) = f.min_priority {
        let column = meaning::column("priority_score"@);
        assert(conditions[1 + k + u] == Condition::Present(column));
        assert(conditions[2 + k + u] == Condition::AtLeast(
            column,
            Operand::Parameter(messages::priority_index(f)),
        ));
        assert(values[1 + k] == ValueText::Integer(p as int));
        assert(messages::priority_index(f) == 2 + k);
        assert(meaning::meets(db, conditions[1 + k + u], params, found) <==> m.priority is Some);
        assert(meaning::meets(db, conditions[2 + k + u], params, found) <==> m.priority is Some
            && m.priority->0@ >= p);
    }
    let wanted = {
        &&& m.is_archived == f.archived
        &&& f.channel is Some ==> m.channel == f.channel->0
        &&& f.unread_only ==> !m.is_read
        &&& f.min_priority is Some ==> m.priority is Some && m.priority->0@ >= f.min_priority->0
    };
    if wanted {
        assert forall|i: int| 0 <= i < conditions.len() implies meaning::meets(
            db,
            #[trigger] conditions[i],
            params,
            found,
        ) by {
            assert(i == 0 || i == 1 || i == 2 || i == 3 || i == 4);
        }
    }
    if meaning::meets_all(db, conditions, params, found) {
        assert(meaning::meets(db, conditions[0], params, found));
        if f.channel is Some {
            assert(meaning::meets(db, conditions[1], params, found));
        }
        if f.unread_only {
            assert(meaning::meets(db, conditions[1 + k], params, found));
        }
        if f.min_priority is Some {
            assert(meaning::meets(db, conditions[1 + k + u], params, found));
            assert(meaning::meets(db, conditions[2 + k + u], params, found));
        }
    }
}

/// `a` was sent before `b`, as the stored times tell.
pub open spec fn sent_before(a: Found, b: Found) -> bool {
    match (
        meaning::value_of(a, meaning::column("timestamp"@)),
        meaning::value_of(b, meaning::column("timestamp"@)),
    ) {
        (ValueText::Text(x), ValueText::Text(y)) => meaning::text_less(x, y),
        _ => false,
    }
}

/// A page of messages comes newest first. It holds `limit` messages at most and
/// starts after the `offset` newest; no message on it was sent before one that
/// stands behind it or on a later page.
pub proof fn a_page_comes_newest_first(
    db: Database,
    f: MessageFilter,
    limit: u32,
    offset: u32,
    all: Seq<Found>,
)
    requires
        meaning::lists(db, page_query(f), messages::page_values(f, limit, offset), all),
    ensures
        meaning::query_text(page_query(f)) == messages::page_text(f),
        ({
            let page = meaning::given(
                page_query(f),
                messages::page_values(f, limit, offset),
                all,
            );
            &&& page.len() <= limit
            &&& page.len() == limit || offset + page.len() >= all.len()
            &&& forall|i: int|
                0 <= i < page.len() ==> #[trigger] page[i] == all[offset + i]
            &&& forall|i: int, k: int|
                #![trigger page[i], all[k]]
                0 <= i < page.len() && offset + i < k < all.len() ==> !sent_before(
                    page[i],
                    all[k],
                )
        }),
{
    lemma_page_text(f);
    let q = page_query(f);
    let params = messages::page_values(f, limit, offset);
    let n = messages::where_values(f).len();
    let page = meaning::given(q, params, all);
    assert(params[n as int] == ValueText::Integer(limit as int));
    assert(params[n as int + 1] == ValueText::Integer(offset as int));
    assert(meaning::count_of(q.limit->0, params) == limit);
    assert(meaning::count_of(q.offset->0, params) == offset);
    assert forall|i: int, k: int|
        #![trigger page[i], all[k]]
        0 <= i < page.len() && offset + i < k < all.len() implies !sent_before(
        page[i],
        all[k],
    ) by {
        assert(page[i] == all[offset + i]);
        let a = all[offset + i];
        let b = all[k];
        assert(meaning::sorted_so(db, q.order, a, b));
        let c = meaning::column("timestamp"@);
        assert(q.order[0] == (c, Direction::Down));
        if sent_before(a, b) {
            assert(meaning::value_less(db, meaning::value_of(a, c), meaning::value_of(b, c)));
        }
    }
}

/// The query for one message.
pub open spec fn message_query() -> Query {
    whole_messages(
        seq![Condition::Equal(meaning::column("id"@), Operand::Parameter(1))],
        Seq::empty(),
        None,
        None,
    )
}

/// The query for the messages of a thread.
pub open spec fn thread_query() -> Query {
    whole_messages(
        seq![Condition::Equal(meaning::column("thread_id"@), Operand::Parameter(1))],
        seq![(meaning::column("timestamp"@), Direction::Up)],
        Some(Operand::Parameter(2)),
        None,
    )
}

/// The statement for one message is the one that is meant.
pub proof fn lemma_message_text()
    ensures
        meaning::query_text(message_query()) == SELECT_MESSAGES@ + " WHERE id = ?1"@,
{
    let q = message_query();
    lemma_whole_messages(q.conditions, q.order, q.limit, q.offset);
    meaning::lemma_small_numbers();
    let items = q.conditions.map_values(|c: Condition| meaning::condition_text(c));
    reveal_strlit(" ");
    reveal_strlit("WHERE ");
    reveal_strlit(" = ");
    reveal_strlit("?");
    reveal_strlit("1");
    reveal_strlit("id");
    reveal_strlit(" WHERE id = ?1");
    assert(items =~= seq![meaning::condition_text(q.conditions[0])]);
    assert(" "@ + "WHERE "@ + meaning::conditions_text(q.conditions) =~= " WHERE id = ?1"@);
    assert(meaning::query_text(q) =~= SELECT_MESSAGES@ + " WHERE id = ?1"@);
}

/// The statement for the messages of a thread is the one that is meant.
pub proof fn lemma_thread_text()
    ensures
        meaning::query_text(thread_query()) == SELECT_MESSAGES@
            + " WHERE thread_id = ?1 ORDER BY timestamp ASC LIMIT ?2"@,
{
    let q = thread_query();
    lemma_whole_messages(q.conditions, q.order, q.limit, q.offset);
    meaning::lemma_small_numbers();
    let items = q.conditions.map_values(|c: Condition| meaning::condition_text(c));
    let terms = q.order.map_values(|t: (Column, Direction)| meaning::term_text(t));
    let tail = " WHERE thread_id = ?1 ORDER BY timestamp ASC LIMIT ?2"@;
    reveal_strlit(" ");
    reveal_strlit("WHERE ");
    reveal_strlit(" = ");
    reveal_strlit("?");
    reveal_strlit("1");
    reveal_strlit("2");
    reveal_strlit("thread_id");
    reveal_strlit("ORDER BY ");
    reveal_strlit("timestamp");
    reveal_strlit(" ASC");
    reveal_strlit("LIMIT ");
    reveal_strlit(" WHERE thread_id = ?1 ORDER BY timestamp ASC LIMIT ?2");
    assert(items =~= seq![meaning::condition_text(q.conditions[0])]);
    assert(terms =~= seq!["timestamp"@ + " ASC"@]);
    assert(meaning::tail_text(q) =~= tail);
}

/// One message is asked for by its identifier alone.
pub proof fn a_message_is_found_by_its_identifier(
    db: Database,
    id: Uuid,
    m: Message,
    attachments_json: Seq<char>,
    metadata_json: Seq<char>,
)
    ensures
        meaning::query_text(message_query()) == SELECT_MESSAGES@ + " WHERE id = ?1"@,
        meaning::meets_all(
            db,
            message_query().conditions,
            seq![ValueText::Text(id::uuid_text(id))],
            meaning::alone(stored(m, attachments_json, metadata_json)),
        ) <==> m.id == id,
{
    lemma_message_text();
    a_message_is_stored_field_by_field(m, attachments_json, metadata_json);
    let found = meaning::alone(stored(m, attachments_json, metadata_json));
    let params = seq![ValueText::Text(id::uuid_text(id))];
    let c = message_query().conditions;
    if id::uuid_text(m.id) == id::uuid_text(id) {
        id::texts_tell_identifiers_apart(m.id, id);
    }
    assert(meaning::meets(db, c[0], params, found) <==> m.id == id);
    if m.id != id {
        assert(!meaning::meets(db, c[0], params, found));
    }
}

/// The messages of a thread are those that belong to it, and come oldest first:
/// none was sent after one that stands behind it. Of more than `limit`, the
/// oldest are given.
pub proof fn a_thread_comes_oldest_first(
    db: Database,
    thread_id: Uuid,
    limit: u32,
    all: Seq<Found>,
    m: Message,
    attachments_json: Seq<char>,
    metadata_json: Seq<char>,
)
    requires
        meaning::lists(db, thread_query(), messages::thread_values(thread_id, limit), all),
    ensures
        meaning::query_text(thread_query()) == SELECT_MESSAGES@
            + " WHERE thread_id = ?1 ORDER BY timestamp ASC LIMIT ?2"@,
        meaning::meets_all(
            db,
            thread_query().conditions,
            messages::thread_values(thread_id, limit),
            meaning::alone(stored(m, attachments_json, metadata_json)),
        ) <==> m.thread_id == thread_id,
        ({
            let given = meaning::given(
                thread_query(),
                messages::thread_values(thread_id, limit),
                all,
            );
            &&& given.len() == if all.len() < limit {
                all.len() as int
            } else {
                limit as int
            }
            &&& forall|i: int| 0 <= i < given.len() ==> #[trigger] given[i] == all[i]
            &&& forall|i: int, k: int|
                #![trigger given[i], all[k]]
                0 <= i < given.len() && i < k < all.len() ==> !sent_before(all[k], given[i])
        }),
{
    lemma_thread_text();
    let q = thread_query();
    let params = messages::thread_values(thread_id, limit);
    let given = meaning::given(q, params, all);
    assert(meaning::count_of(q.limit->0, params) == limit);
    let c = meaning::column("timestamp"@);
    assert forall|i: int, k: int|
        #![trigger given[i], all[k]]
        0 <= i < given.len() && i < k < all.len() implies !sent_before(all[k], given[i]) by {
        let a = all[i];
        let b = all[k];
        assert(meaning::sorted_so(db, q.order, a, b));
        assert(q.order[0] == (c, Direction::Up));
        if sent_before(b, a) {
            let x = meaning::value_of(a, c)->Text_0;
            let y = meaning::value_of(b, c)->Text_0;
            meaning::text_order_is_strict(x, y);
        }
    }
    a_message_is_stored_field_by_field(m, attachments_json, metadata_json);
    let found = meaning::alone(stored(m, attachments_json, metadata_json));
    if id::uuid_text(m.thread_id) == id::uuid_text(thread_id) {
        id::texts_tell_identifiers_apart(m.thread_id, thread_id);
    }
    assert(meaning::meets(db, q.conditions[0], params, found) <==> m.thread_id == thread_id);
    if m.thread_id != thread_id {
        assert(!meaning::meets(db, q.conditions[0], params, found));
    }
}

// ---------------------------------------------------------------------------
// Changing
// ---------------------------------------------------------------------------

/// The statement that marks a message.
pub open spec fn mark_update() -> Update {
    Update {
        table: "messages"@,
        sets: seq![("is_read"@, 1nat)],
        conditions: seq![Condition::Equal(meaning::column("id"@), Operand::Parameter(2))],
    }
}

/// Its text.
#[verifier::spinoff_prover]
pub proof fn lemma_mark_update_text()
    ensures
        meaning::update_text(mark_update()) == "UPDATE messages SET is_read = ?1 WHERE id = ?2"@,
{
    let u = mark_update();
    meaning::lemma_small_numbers();
    let sets = u.sets.map_values(|s: (Seq<char>, nat)| s.0 + " = "@ + meaning::parameter_text(s.1));
    assert(sets[0] =~= "is_read = ?1"@) by {
        reveal_strlit("is_read = ?1");
        reveal_strlit("is_read");
        reveal_strlit(" = ");
        reveal_strlit("?");
        reveal_strlit("1");
    }
    assert(meaning::listed(sets, ", "@) =~= "is_read = ?1"@) by {
        reveal_strlit("is_read = ?1");
        reveal_strlit(", ");
        reveal_with_fuel(meaning::listed, 2);
    }
    let conditions = u.conditions.map_values(|c: Condition| meaning::condition_text(c));
    assert(conditions =~= seq![meaning::condition_text(u.conditions[0])]);
    assert(meaning::condition_text(u.conditions[0]) =~= "id = ?2"@) by {
        reveal_strlit("id = ?2");
        reveal_strlit("id");
        reveal_strlit(" = ");
        reveal_strlit("?");
        reveal_strlit("2");
    }
    assert(meaning::conditions_text(u.conditions) =~= "id = ?2"@) by {
        reveal_strlit("id = ?2");
        reveal_strlit(" AND ");
        reveal_with_fuel(meaning::listed, 2);
    }
    assert(meaning::update_text(u) =~= "UPDATE messages SET is_read = ?1 WHERE id = ?2"@) by {
        reveal_strlit("UPDATE messages SET is_read = ?1 WHERE id = ?2");
        reveal_strlit("is_read = ?1");
        reveal_strlit("id = ?2");
        reveal_strlit("UPDATE ");
        reveal_strlit(" SET ");
        reveal_strlit(" WHERE ");
        reveal_strlit("messages");
    }
}

/// The statement that classifies a message.
pub open spec fn classify_update() -> Update {
    Update {
        table: "messages"@,
        sets: seq![("priority_score"@, 1nat), ("category"@, 2nat)],
        conditions: seq![Condition::Equal(meaning::column("id"@), Operand::Parameter(3))],
    }
}

/// Its text.
#[verifier::spinoff_prover]
pub proof fn lemma_classify_update_text()
    ensures
        meaning::update_text(classify_update()) == "UPDATE messages SET priority_score = ?1, category = ?2 WHERE id = ?3"@,
{
    let u = classify_update();
    meaning::lemma_small_numbers();
    let sets = u.sets.map_values(|s: (Seq<char>, nat)| s.0 + " = "@ + meaning::parameter_text(s.1));
    assert(sets[0] =~= "priority_score = ?1"@) by {
        reveal_strlit("priority_score = ?1");
        reveal_strlit("priority_score");
        reveal_strlit(" = ");
        reveal_strlit("?");
        reveal_strlit("1");
    }
    assert(sets[1] =~= "category = ?2"@) by {
        reveal_strlit("category = ?2");
        reveal_strlit("category");
        reveal_strlit(" = ");
        reveal_strlit("?");
        reveal_strlit("2");
    }
    assert(meaning::listed(sets, ", "@) =~= "priority_score = ?1, category = ?2"@) by {
        reveal_strlit("priority_score = ?1, category = ?2");
        reveal_strlit(", ");
        reveal_strlit("priority_score = ?1");
        reveal_strlit("category = ?2");
        reveal_with_fuel(meaning::listed, 3);
    }
    let conditions = u.conditions.map_values(|c: Condition| meaning::condition_text(c));
    assert(conditions =~= seq![meaning::condition_text(u.conditions[0])]);
    assert(meaning::condition_text(u.conditions[0]) =~= "id = ?3"@) by {
        reveal_strlit("id = ?3");
        reveal_strlit("id");
        reveal_strlit(" = ");
        reveal_strlit("?");
        reveal_strlit("3");
    }
    assert(meaning::conditions_text(u.conditions) =~= "id = ?3"@) by {
        reveal_strlit("id = ?3");
        reveal_strlit(" AND ");
        reveal_with_fuel(meaning::listed, 2);
    }
    assert(meaning::update_text(u) =~= "UPDATE messages SET priority_score = ?1, category = ?2 WHERE id = ?3"@) by {
        reveal_strlit("UPDATE messages SET priority_score = ?1, category = ?2 WHERE id = ?3");
        reveal_strlit("priority_score = ?1, category = ?2");
        reveal_strlit("id = ?3");
        reveal_strlit("UPDATE ");
        reveal_strlit(" SET ");
        reveal_strlit(" WHERE ");
        reveal_strlit("messages");
    }
}

/// Marking a message changes whether it is read, and nothing else, of the message
/// with the identifier, and of no other.
pub proof fn only_that_message_is_marked(db: Database, id: Uuid, read: bool, r: Row)
    ensures
        meaning::update_text(mark_update()) == messages::MARK_READ@,
        r["id"@] == ValueText::Text(id::uuid_text(id)) ==> meaning::updated(
            db,
            mark_update(),
            messages::mark_values(id, read),
            r,
        ) == r.insert(
            "is_read"@,
            ValueText::Integer(
                if read {
                    1
                } else {
                    0
                },
            ),
        ),
        r["id"@] != ValueText::Text(id::uuid_text(id)) ==> meaning::updated(
            db,
            mark_update(),
            messages::mark_values(id, read),
            r,
        ) == r,
{
    lemma_mark_update_text();
    let u = mark_update();
    let params = messages::mark_values(id, read);
    let found = meaning::alone(r);
    reveal_with_fuel(meaning::with_set, 3);
    assert(found[Seq::<char>::empty()] == r);
    assert(meaning::meets(db, u.conditions[0], params, found) <==> r["id"@] == ValueText::Text(
        id::uuid_text(id),
    ));
    assert(u.sets.drop_last() =~= Seq::empty());
}

/// Classifying a message changes its priority and its category, and nothing else,
/// of the message with the identifier, and of no other.
pub proof fn only_that_message_is_classified(
    db: Database,
    id: Uuid,
    category: Option<String>,
    priority: Option<PriorityScore>,
    r: Row,
)
    ensures
        meaning::update_text(classify_update()) == messages::SET_CLASSIFICATION@,
        r["id"@] == ValueText::Text(id::uuid_text(id)) ==> meaning::updated(
            db,
            classify_update(),
            messages::classification_values(id, category, priority),
            r,
        ) == r.insert(
            "priority_score"@,
            match priority {
                Some(p) => ValueText::Integer(p@ as int),
                None => ValueText::Null,
            },
        ).insert(
            "category"@,
            match category {
                Some(c) => ValueText::Text(c@),
                None => ValueText::Null,
            },
        ),
        r["id"@] != ValueText::Text(id::uuid_text(id)) ==> meaning::updated(
            db,
            classify_update(),
            messages::classification_values(id, category, priority),
            r,
        ) == r,
{
    lemma_classify_update_text();
    let u = classify_update();
    let params = messages::classification_values(id, category, priority);
    let found = meaning::alone(r);
    reveal_with_fuel(meaning::with_set, 4);
    assert(found[Seq::<char>::empty()] == r);
    assert(meaning::meets(db, u.conditions[0], params, found) <==> r["id"@] == ValueText::Text(
        id::uuid_text(id),
    ));
    assert(u.sets.drop_last() =~= seq![u.sets[0]]);
    assert(u.sets.drop_last().drop_last() =~= Seq::empty());
}

// ---------------------------------------------------------------------------
// Searching
// ---------------------------------------------------------------------------

/// The query that searches messages for a phrase.
pub open spec fn phrase_query() -> Query {
    Query {
        selected: Selected::Columns(
            seq![
                meaning::column_of("m"@, "id"@),
                meaning::column_of("m"@, "channel_type"@),
                meaning::column_of("m"@, "thread_id"@),
                meaning::column_of("m"@, "sender_id"@),
                meaning::column_of("m"@, "content_text"@),
                meaning::column_of("m"@, "content_html"@),
                meaning::column_of("m"@, "content_subject"@),
                meaning::column_of("m"@, "attachments_json"@),
                meaning::column_of("m"@, "timestamp"@),
                meaning::column_of("m"@, "metadata_json"@),
                meaning::column_of("m"@, "priority_score"@),
                meaning::column_of("m"@, "category"@),
                meaning::column_of("m"@, "is_read"@),
                meaning::column_of("m"@, "is_archived"@),
                meaning::column_of("m"@, "external_id"@),
                meaning::column_of("m"@, "received_on_channel_id"@),
            ],
        ),
        source: Source::Join {
            left: "messages_fts"@,
            left_as: "fts"@,
            right: "messages"@,
            right_as: "m"@,
            on: (meaning::column_of("m"@, "rowid"@), meaning::column_of("fts"@, "rowid"@)),
        },
        conditions: seq![Condition::Matching(meaning::column("messages_fts"@), 1)],
        order: seq![(meaning::column("rank"@), Direction::Plain)],
        limit: Some(Operand::Parameter(2)),
        offset: None,
        gap: "\n             "@,
    }
}

/// The columns of its text.
proof fn lemma_phrase_query_columns()
    ensures
        meaning::selected_text(phrase_query().selected) == "m.id, m.channel_type, m.thread_id, m.sender_id, m.content_text, m.content_html, m.content_subject, m.attachments_json, m.timestamp, m.metadata_json, m.priority_score, m.category, m.is_read, m.is_archived, m.external_id, m.received_on_channel_id"@,
{
    let columns = phrase_query().selected->Columns_0.map_values(|c: Column| meaning::column_text(c));
    assert(columns =~= seq![
        meaning::column_text(meaning::column_of("m"@, "id"@)),
        meaning::column_text(meaning::column_of("m"@, "channel_type"@)),
        meaning::column_text(meaning::column_of("m"@, "thread_id"@)),
        meaning::column_text(meaning::column_of("m"@, "sender_id"@)),
        meaning::column_text(meaning::column_of("m"@, "content_text"@)),
        meaning::column_text(meaning::column_of("m"@, "content_html"@)),
        meaning::column_text(meaning::column_of("m"@, "content_subject"@)),
        meaning::column_text(meaning::column_of("m"@, "attachments_json"@)),
        meaning::column_text(meaning::column_of("m"@, "timestamp"@)),
        meaning::column_text(meaning::column_of("m"@, "metadata_json"@)),
        meaning::column_text(meaning::column_of("m"@, "priority_score"@)),
        meaning::column_text(meaning::column_of("m"@, "category"@)),
        meaning::column_text(meaning::column_of("m"@, "is_read"@)),
        meaning::column_text(meaning::column_of("m"@, "is_archived"@)),
        meaning::column_text(meaning::column_of("m"@, "external_id"@)),
        meaning::column_text(meaning::column_of("m"@, "received_on_channel_id"@)),
    ]);
    assert(columns[0] =~= "m.id"@) by {
        reveal_strlit("m.id");
        reveal_strlit("m");
        reveal_strlit("id");
        reveal_strlit(".");
    }
    assert(columns[1] =~= "m.channel_type"@) by {
        reveal_strlit("m.channel_type");
        reveal_strlit("m");
        reveal_strlit("channel_type");
        reveal_strlit(".");
    }
    assert(columns[2] =~= "m.thread_id"@) by {
        reveal_strlit("m.thread_id");
        reveal_strlit("m");
        reveal_strlit("thread_id");
        reveal_strlit(".");
    }
    assert(columns[3] =~= "m.sender_id"@) by {
        reveal_strlit("m.sender_id");
        reveal_strlit("m");
        reveal_strlit("sender_id");
        reveal_strlit(".");
    }
    assert(columns[4] =~= "m.content_text"@) by {
        reveal_strlit("m.content_text");
        reveal_strlit("m");
        reveal_strlit("content_text");
        reveal_strlit(".");
    }
    assert(columns[5] =~= "m.content_html"@) by {
        reveal_strlit("m.content_html");
        reveal_strlit("m");
        reveal_strlit("content_html");
        reveal_strlit(".");
    }
    assert(columns[6] =~= "m.content_subject"@) by {
        reveal_strlit("m.content_subject");
        reveal_strlit("m");
        reveal_strlit("content_subject");
        reveal_strlit(".");
    }
    assert(columns[7] =~= "m.attachments_json"@) by {
        reveal_strlit("m.attachments_json");
        reveal_strlit("m");
        reveal_strlit("attachments_json");
        reveal_strlit(".");
    }
    assert(columns[8] =~= "m.timestamp"@) by {
        reveal_strlit("m.timestamp");
        reveal_strlit("m");
        reveal_strlit("timestamp");
        reveal_strlit(".");
    }
    assert(columns[9] =~= "m.metadata_json"@) by {
        reveal_strlit("m.metadata_json");
        reveal_strlit("m");
        reveal_strlit("metadata_json");
        reveal_strlit(".");
    }
    assert(columns[10] =~= "m.priority_score"@) by {
        reveal_strlit("m.priority_score");
        reveal_strlit("m");
        reveal_strlit("priority_score");
        reveal_strlit(".");
    }
    assert(columns[11] =~= "m.category"@) by {
        reveal_strlit("m.category");
        reveal_strlit("m");
        reveal_strlit("category");
        reveal_strlit(".");
    }
    assert(columns[12] =~= "m.is_read"@) by {
        reveal_strlit("m.is_read");
        reveal_strlit("m");
        reveal_strlit("is_read");
        reveal_strlit(".");
    }
    assert(columns[13] =~= "m.is_archived"@) by {
        reveal_strlit("m.is_archived");
        reveal_strlit("m");
        reveal_strlit("is_archived");
        reveal_strlit(".");
    }
    assert(columns[14] =~= "m.external_id"@) by {
        reveal_strlit("m.external_id");
        reveal_strlit("m");
        reveal_strlit("external_id");
        reveal_strlit(".");
    }
    assert(columns[15] =~= "m.received_on_channel_id"@) by {
        reveal_strlit("m.received_on_channel_id");
        reveal_strlit("m");
        reveal_strlit("received_on_channel_id");
        reveal_strlit(".");
    }
    reveal_strlit("m.id, m.channel_type, m.thread_id, m.sender_id, m.content_text, m.content_html, m.content_subject, m.attachments_json, m.timestamp, m.metadata_json, m.priority_score, m.category, m.is_read, m.is_archived, m.external_id, m.received_on_channel_id");
    reveal_strlit(", ");
    reveal_strlit("m.id");
    reveal_strlit("m.channel_type");
    reveal_strlit("m.thread_id");
    reveal_strlit("m.sender_id");
    reveal_strlit("m.content_text");
    reveal_strlit("m.content_html");
    reveal_strlit("m.content_subject");
    reveal_strlit("m.attachments_json");
    reveal_strlit("m.timestamp");
    reveal_strlit("m.metadata_json");
    reveal_strlit("m.priority_score");
    reveal_strlit("m.category");
    reveal_strlit("m.is_read");
    reveal_strlit("m.is_archived");
    reveal_strlit("m.external_id");
    reveal_strlit("m.received_on_channel_id");
    reveal_with_fuel(meaning::listed, 17);
    assert(meaning::listed(columns, ", "@) =~= "m.id, m.channel_type, m.thread_id, m.sender_id, m.content_text, m.content_html, m.content_subject, m.attachments_json, m.timestamp, m.metadata_json, m.priority_score, m.category, m.is_read, m.is_archived, m.external_id, m.received_on_channel_id"@);
}

/// What its text reads from.
proof fn lemma_phrase_query_source()
    ensures
        meaning::source_text(phrase_query().source, phrase_query().gap) == "messages_fts fts\n             JOIN messages m ON m.rowid = fts.rowid"@,
{
    reveal_strlit("\n             ");
    reveal_strlit("messages_fts");
    reveal_strlit("fts");
    reveal_strlit("messages");
    reveal_strlit("m");
    reveal_strlit(" ");
    reveal_strlit("JOIN ");
    reveal_strlit(" ON ");
    reveal_strlit(" = ");
    reveal_strlit("messages_fts fts\n             JOIN messages m ON m.rowid = fts.rowid");
    reveal_strlit("rowid");
    reveal_strlit(".");
    assert(meaning::source_text(phrase_query().source, phrase_query().gap) =~= "messages_fts fts\n             JOIN messages m ON m.rowid = fts.rowid"@);
}

/// The conditions of its text.
proof fn lemma_phrase_query_conditions()
    ensures
        meaning::conditions_text(phrase_query().conditions) == "messages_fts MATCH ?1"@,
{
    let q = phrase_query();
    meaning::lemma_small_numbers();
    let conditions = q.conditions.map_values(|c: Condition| meaning::condition_text(c));
    assert(conditions =~= seq![meaning::condition_text(q.conditions[0])]);
    assert(meaning::condition_text(q.conditions[0]) =~= "messages_fts MATCH ?1"@) by {
        reveal_strlit("messages_fts MATCH ?1");
        reveal_strlit("messages_fts");
        reveal_strlit(" MATCH ");
        reveal_strlit("?");
        reveal_strlit("1");
    }
    assert(meaning::conditions_text(q.conditions) =~= "messages_fts MATCH ?1"@) by {
        reveal_strlit("messages_fts MATCH ?1");
        reveal_strlit(" AND ");
        reveal_with_fuel(meaning::listed, 2);
    }
}

/// The end of its text.
proof fn lemma_phrase_query_tail()
    ensures
        meaning::tail_text(phrase_query()) == "\n             WHERE messages_fts MATCH ?1\n             ORDER BY rank\n             LIMIT ?2"@,
{
    let q = phrase_query();
    meaning::lemma_small_numbers();
    lemma_phrase_query_conditions();
    let terms = q.order.map_values(|t: (Column, Direction)| meaning::term_text(t));
    assert(terms =~= seq![meaning::term_text(q.order[0])]);
    assert(meaning::term_text(q.order[0]) =~= "rank"@) by {
        reveal_strlit("rank");
    }
    assert(meaning::listed(terms, ", "@) =~= "rank"@) by {
        reveal_strlit("rank");
        reveal_strlit(", ");
        reveal_with_fuel(meaning::listed, 2);
    }
    assert(meaning::tail_text(q) =~= "\n             WHERE messages_fts MATCH ?1\n             ORDER BY rank\n             LIMIT ?2"@) by {
        reveal_strlit("\n             WHERE messages_fts MATCH ?1\n             ORDER BY rank\n             LIMIT ?2");
        reveal_strlit("\n             ");
        reveal_strlit("WHERE ");
        reveal_strlit("messages_fts MATCH ?1");
        reveal_strlit("ORDER BY ");
        reveal_strlit("rank");
        reveal_strlit("LIMIT ");
        reveal_strlit("?");
        reveal_strlit("2");
    }
}

/// Its text.
pub proof fn lemma_phrase_query_text()
    ensures
        meaning::query_text(phrase_query()) == SEARCH_MESSAGES@,
{
    let q = phrase_query();
    lemma_phrase_query_columns();
    lemma_phrase_query_source();
    lemma_phrase_query_tail();
    assert(meaning::query_text(q) =~= SEARCH_MESSAGES@) by {
        reveal_strlit("SELECT m.id, m.channel_type, m.thread_id, m.sender_id, m.content_text, m.content_html, m.content_subject, m.attachments_json, m.timestamp, m.metadata_json, m.priority_score, m.category, m.is_read, m.is_archived, m.external_id, m.received_on_channel_id\n             FROM messages_fts fts\n             JOIN messages m ON m.rowid = fts.rowid\n             WHERE messages_fts MATCH ?1\n             ORDER BY rank\n             LIMIT ?2");
        reveal_strlit("SELECT ");
        reveal_strlit("FROM ");
        reveal_strlit("\n             ");
        reveal_strlit("m.id, m.channel_type, m.thread_id, m.sender_id, m.content_text, m.content_html, m.content_subject, m.attachments_json, m.timestamp, m.metadata_json, m.priority_score, m.category, m.is_read, m.is_archived, m.external_id, m.received_on_channel_id");
        reveal_strlit("messages_fts fts\n             JOIN messages m ON m.rowid = fts.rowid");
        reveal_strlit("\n             WHERE messages_fts MATCH ?1\n             ORDER BY rank\n             LIMIT ?2");
    }
}

/// A search gives messages: each that it gives is stored, the index finds the
/// entry of its row by the phrase, the better come first, and no more than
/// `limit` come. Each message that the index finds is among all that there are.
pub proof fn a_search_gives_what_the_index_finds(
    db: Database,
    query: Seq<char>,
    limit: u32,
    all: Seq<Found>,
    i: int,
)
    requires
        meaning::lists(db, phrase_query(), messages::search_values(query, limit), all),
        0 <= i < all.len(),
    ensures
        meaning::query_text(phrase_query()) == SEARCH_MESSAGES@,
        ({
            let given = meaning::given(
                phrase_query(),
                messages::search_values(query, limit),
                all,
            );
            let rank = |x: Found| meaning::value_of(x, meaning::column("rank"@));
            &&& given.len() == if all.len() < limit {
                all.len() as int
            } else {
                limit as int
            }
            &&& forall|k: int| 0 <= k < given.len() ==> #[trigger] given[k] == all[k]
            &&& db.tables["messages"@].contains(all[i]["m"@])
            &&& all[i]["m"@]["rowid"@] == all[i]["fts"@]["rowid"@]
            &&& (db.index_finds)(
                all[i],
                meaning::column("messages_fts"@),
                ValueText::Text(messages::phrase(query)),
            )
            &&& forall|k: int|
                i < k < all.len() ==> meaning::value_less(db, rank(all[i]), rank(#[trigger] all[k]))
                    || !meaning::value_less(db, rank(all[k]), rank(all[i]))
        }),
{
    lemma_phrase_query_text();
    let q = phrase_query();
    let params = messages::search_values(query, limit);
    assert(meaning::count_of(q.limit->0, params) == limit);
    assert(all.contains(all[i]));
    assert(meaning::admits(db, q, params, all[i]));
    assert(meaning::meets(db, q.conditions[0], params, all[i]));
    reveal_strlit("m");
    reveal_strlit("fts");
    assert("m"@.len() == 1 && "fts"@.len() == 3);
    assert forall|k: int| i < k < all.len() implies meaning::value_less(
        db,
        meaning::value_of(all[i], meaning::column("rank"@)),
        meaning::value_of(#[trigger] all[k], meaning::column("rank"@)),
    ) || !meaning::value_less(
        db,
        meaning::value_of(all[k], meaning::column("rank"@)),
        meaning::value_of(all[i], meaning::column("rank"@)),
    ) by {
        assert(meaning::sorted_so(db, q.order, all[i], all[k]));
        assert(q.order[0] == (meaning::column("rank"@), Direction::Plain));
    }
}

} // verus!
