//! What the statements about channels, contacts, threads, drafts and the log do.
use vstd::prelude::*;

use crate::ai::pipeline::LogEntry;
use crate::id;
use crate::id::Uuid;
use crate::runtime::status;
use crate::runtime::status::{ChannelStatus, StatusText};
use crate::store::ai_log;
use crate::store::ai_log::{INSERT_DECISION, SELECT_DECISIONS};
use crate::store::channels;
use crate::store::channels::{INSERT_CHANNEL, SELECT_CHANNELS};
use crate::store::contacts;
use crate::store::contacts::{INSERT_CONTACT, INSERT_IDENTITY, INSERT_THREAD, SELECT_THREAD};
use crate::store::drafts;
use crate::store::drafts::{NewDraft, INSERT_DRAFT, SELECT_DRAFTS};
use crate::store::meaning;
use crate::store::meaning::{
    Column, Condition, Conflict, Database, Delete, Direction, Found, Insert, Operand, Query, Row,
    Selected, Source, Update, Written,
};
use crate::store::reply_drafts;
use crate::store::reply_drafts::{NewReplyDraft, SELECT_REPLY, UPSERT_REPLY};
use crate::store::sql;
use crate::store::sql::ValueText;
use crate::time::Timestamp;
use crate::types::channel;
use crate::types::message;
use crate::types::{Channel, ChannelConfig, Contact, ContactIdentity, Thread};

verus! {

// ---------------------------------------------------------------------------
// Channels
// ---------------------------------------------------------------------------

/// The statement that stores a channel.
pub open spec fn channel_insert() -> Insert {
    Insert {
        table: "channels"@,
        columns: seq![
            "id"@,
            "channel_type"@,
            "label"@,
            "keychain_ref"@,
            "enabled"@,
            "poll_interval_secs"@,
            "last_sync_cursor"@,
            "last_sync_at"@,
            "status"@,
            "last_error"@,
            "consecutive_failures"@,
        ],
        values: meaning::parameters(11),
        conflict: Conflict::Fail,
        gap: " "@,
    }
}

/// The columns of its text.
proof fn lemma_channel_insert_columns()
    ensures
        meaning::listed(channel_insert().columns, ", "@) == "id, channel_type, label, keychain_ref, enabled, poll_interval_secs, last_sync_cursor, last_sync_at, status, last_error, consecutive_failures"@,
{
    reveal_strlit("id, channel_type, label, keychain_ref, enabled, poll_interval_secs, last_sync_cursor, last_sync_at, status, last_error, consecutive_failures");
    reveal_strlit(", ");
    reveal_strlit("id");
    reveal_strlit("channel_type");
    reveal_strlit("label");
    reveal_strlit("keychain_ref");
    reveal_strlit("enabled");
    reveal_strlit("poll_interval_secs");
    reveal_strlit("last_sync_cursor");
    reveal_strlit("last_sync_at");
    reveal_strlit("status");
    reveal_strlit("last_error");
    reveal_strlit("consecutive_failures");
    reveal_with_fuel(meaning::listed, 12);
    assert(meaning::listed(channel_insert().columns, ", "@) =~= "id, channel_type, label, keychain_ref, enabled, poll_interval_secs, last_sync_cursor, last_sync_at, status, last_error, consecutive_failures"@);
}

/// The values of its text.
proof fn lemma_channel_insert_values()
    ensures
        meaning::listed(
            channel_insert().values.map_values(|w: Written| meaning::written_text(w)),
            ", "@,
        ) == "?1, ?2, ?3, ?4, ?5, ?6, ?7, ?8, ?9, ?10, ?11"@,
{
    let values = channel_insert().values.map_values(|w: Written| meaning::written_text(w));
    meaning::lemma_small_numbers();
    reveal_strlit("?1, ?2, ?3, ?4, ?5, ?6, ?7, ?8, ?9, ?10, ?11");
    reveal_strlit(", ");
    reveal_strlit("?");
    reveal_strlit("1");
    reveal_strlit("2");
    reveal_strlit("3");
    reveal_strlit("4");
    reveal_strlit("5");
    reveal_strlit("6");
    reveal_strlit("7");
    reveal_strlit("8");
    reveal_strlit("9");
    reveal_strlit("10");
    reveal_strlit("11");
    reveal_with_fuel(meaning::listed, 12);
    assert(meaning::listed(values, ", "@) =~= "?1, ?2, ?3, ?4, ?5, ?6, ?7, ?8, ?9, ?10, ?11"@);
}

/// Its text.
#[verifier::spinoff_prover]
pub proof fn lemma_channel_insert_text()
    ensures
        meaning::insert_text(channel_insert()) == INSERT_CHANNEL@,
{
    let i = channel_insert();
    lemma_channel_insert_columns();
    lemma_channel_insert_values();
    assert(meaning::insert_text(i) =~= INSERT_CHANNEL@) by {
        reveal_strlit("INSERT INTO channels (id, channel_type, label, keychain_ref, enabled, poll_interval_secs, last_sync_cursor, last_sync_at, status, last_error, consecutive_failures) VALUES (?1, ?2, ?3, ?4, ?5, ?6, ?7, ?8, ?9, ?10, ?11)");
        reveal_strlit("id, channel_type, label, keychain_ref, enabled, poll_interval_secs, last_sync_cursor, last_sync_at, status, last_error, consecutive_failures");
        reveal_strlit("?1, ?2, ?3, ?4, ?5, ?6, ?7, ?8, ?9, ?10, ?11");
        reveal_strlit("INSERT INTO ");
        reveal_strlit(" (");
        reveal_strlit(")");
        reveal_strlit(" ");
        reveal_strlit("VALUES (");
        reveal_strlit("channels");
    }
}

/// The query for all channels.
pub open spec fn channels_query() -> Query {
    Query {
        selected: Selected::Columns(
            seq![
                meaning::column("id"@),
                meaning::column("channel_type"@),
                meaning::column("label"@),
                meaning::column("keychain_ref"@),
                meaning::column("enabled"@),
                meaning::column("poll_interval_secs"@),
                meaning::column("last_sync_cursor"@),
                meaning::column("last_sync_at"@),
                meaning::column("status"@),
                meaning::column("last_error"@),
                meaning::column("consecutive_failures"@),
            ],
        ),
        source: Source::Table("channels"@),
        conditions: Seq::empty(),
        order: Seq::empty(),
        limit: None,
        offset: None,
        gap: " "@,
    }
}

/// The columns of its text.
proof fn lemma_channels_query_columns()
    ensures
        meaning::selected_text(channels_query().selected) == "id, channel_type, label, keychain_ref, enabled, poll_interval_secs, last_sync_cursor, last_sync_at, status, last_error, consecutive_failures"@,
{
    let columns = channels_query().selected->Columns_0.map_values(|c: Column| meaning::column_text(c));
    assert(columns =~= seq![
        "id"@,
        "channel_type"@,
        "label"@,
        "keychain_ref"@,
        "enabled"@,
        "poll_interval_secs"@,
        "last_sync_cursor"@,
        "last_sync_at"@,
        "status"@,
        "last_error"@,
        "consecutive_failures"@,
    ]);
    reveal_strlit("id, channel_type, label, keychain_ref, enabled, poll_interval_secs, last_sync_cursor, last_sync_at, status, last_error, consecutive_failures");
    reveal_strlit(", ");
    reveal_strlit("id");
    reveal_strlit("channel_type");
    reveal_strlit("label");
    reveal_strlit("keychain_ref");
    reveal_strlit("enabled");
    reveal_strlit("poll_interval_secs");
    reveal_strlit("last_sync_cursor");
    reveal_strlit("last_sync_at");
    reveal_strlit("status");
    reveal_strlit("last_error");
    reveal_strlit("consecutive_failures");
    reveal_with_fuel(meaning::listed, 12);
    assert(meaning::listed(columns, ", "@) =~= "id, channel_type, label, keychain_ref, enabled, poll_interval_secs, last_sync_cursor, last_sync_at, status, last_error, consecutive_failures"@);
}

/// Its text.
pub proof fn lemma_channels_query_text()
    ensures
        meaning::query_text(channels_query()) == SELECT_CHANNELS@,
{
    let q = channels_query();
    lemma_channels_query_columns();
    assert(meaning::query_text(q) =~= SELECT_CHANNELS@) by {
        reveal_strlit("SELECT id, channel_type, label, keychain_ref, enabled, poll_interval_secs, last_sync_cursor, last_sync_at, status, last_error, consecutive_failures FROM channels");
        reveal_strlit("SELECT ");
        reveal_strlit("FROM ");
        reveal_strlit(" ");
        reveal_strlit("id, channel_type, label, keychain_ref, enabled, poll_interval_secs, last_sync_cursor, last_sync_at, status, last_error, consecutive_failures");
        reveal_strlit("channels");
    }
}

/// A channel is stored field by field.
pub proof fn a_channel_is_stored_field_by_field(c: ChannelConfig, now: ValueText)
    ensures
        meaning::insert_text(channel_insert()) == INSERT_CHANNEL@,
        ({
            let row = meaning::new_row(channel_insert(), channels::channel_values(c), now);
            &&& row["id"@] == ValueText::Text(id::uuid_text(c.id))
            &&& row["channel_type"@] == ValueText::Text(channel::channel_db_text(c.channel))
            &&& row["label"@] == ValueText::Text(c.label@)
            &&& row["keychain_ref"@] == ValueText::Text(c.keychain_ref@)
            &&& row["enabled"@] == ValueText::Integer(if c.enabled { 1 } else { 0 })
            &&& row["poll_interval_secs"@] == ValueText::Integer(c.poll_interval_secs as int)
            &&& row["last_sync_cursor"@] == (match c.last_sync_cursor {
                Some(t) => ValueText::Text(t@),
                None => ValueText::Null,
            })
            &&& row["last_sync_at"@] == (match c.last_sync_at {
                Some(t) => ValueText::Text(sql::time_text(t)),
                None => ValueText::Null,
            })
            &&& row["status"@] == ValueText::Text(status::status_db_text(c.status@))
            &&& row["last_error"@] == (match c.last_error {
                Some(t) => ValueText::Text(t@),
                None => ValueText::Null,
            })
            &&& row["consecutive_failures"@] == ValueText::Integer(c.consecutive_failures as int)
        }),
{
    lemma_channel_insert_text();
    reveal_strlit("id");
    reveal_strlit("channel_type");
    reveal_strlit("label");
    reveal_strlit("keychain_ref");
    reveal_strlit("enabled");
    reveal_strlit("poll_interval_secs");
    reveal_strlit("last_sync_cursor");
    reveal_strlit("last_sync_at");
    reveal_strlit("status");
    reveal_strlit("last_error");
    reveal_strlit("consecutive_failures");
    assert("id"@.len() == 2);
    assert("channel_type"@.len() == 12);
    assert("label"@.len() == 5);
    assert("keychain_ref"@.len() == 12);
    assert("enabled"@.len() == 7);
    assert("poll_interval_secs"@.len() == 18);
    assert("last_sync_cursor"@.len() == 16);
    assert("last_sync_at"@.len() == 12);
    assert("status"@.len() == 6);
    assert("last_error"@.len() == 10);
    assert("consecutive_failures"@.len() == 20);
    assert("channel_type"@[0] == 'c');
    assert("keychain_ref"@[0] == 'k');
    assert("last_sync_at"@[0] == 'l');
    reveal_with_fuel(meaning::filled, 12);
}

/// All channels are read, and of each the columns under which it was stored, in
/// the same order.
pub proof fn all_channels_are_read(db: Database, params: Seq<ValueText>, r: Row)
    ensures
        meaning::query_text(channels_query()) == SELECT_CHANNELS@,
        db.tables["channels"@].contains(r) ==> meaning::admits(
            db,
            channels_query(),
            params,
            meaning::alone(r),
        ),
        channels_query().limit is None,
        channels_query().selected->Columns_0 == channel_insert().columns.map_values(
            |name: Seq<char>| meaning::column(name),
        ),
{
    lemma_channels_query_text();
    assert(channels_query().selected->Columns_0 =~= channel_insert().columns.map_values(
        |name: Seq<char>| meaning::column(name),
    ));
}

/// The statement that stores the status of a channel.
pub open spec fn status_update() -> Update {
    Update {
        table: "channels"@,
        sets: seq![("status"@, 1nat), ("last_error"@, 2nat), ("consecutive_failures"@, 3nat)],
        conditions: seq![Condition::Equal(meaning::column("id"@), Operand::Parameter(4))],
    }
}

/// Its text.
#[verifier::spinoff_prover]
pub proof fn lemma_status_update_text()
    ensures
        meaning::update_text(status_update()) == "UPDATE channels SET status = ?1, last_error = ?2, consecutive_failures = ?3 WHERE id = ?4"@,
{
    let u = status_update();
    meaning::lemma_small_numbers();
    let sets = u.sets.map_values(|s: (Seq<char>, nat)| s.0 + " = "@ + meaning::parameter_text(s.1));
    assert(sets[0] =~= "status = ?1"@) by {
        reveal_strlit("status = ?1");
        reveal_strlit("status");
        reveal_strlit(" = ");
        reveal_strlit("?");
        reveal_strlit("1");
    }
    assert(sets[1] =~= "last_error = ?2"@) by {
        reveal_strlit("last_error = ?2");
        reveal_strlit("last_error");
        reveal_strlit(" = ");
        reveal_strlit("?");
        reveal_strlit("2");
    }
    assert(sets[2] =~= "consecutive_failures = ?3"@) by {
        reveal_strlit("consecutive_failures = ?3");
        reveal_strlit("consecutive_failures");
        reveal_strlit(" = ");
        reveal_strlit("?");
        reveal_strlit("3");
    }
    assert(meaning::listed(sets, ", "@) =~= "status = ?1, last_error = ?2, consecutive_failures = ?3"@) by {
        reveal_strlit("status = ?1, last_error = ?2, consecutive_failures = ?3");
        reveal_strlit(", ");
        reveal_strlit("status = ?1");
        reveal_strlit("last_error = ?2");
        reveal_strlit("consecutive_failures = ?3");
        reveal_with_fuel(meaning::listed, 4);
    }
    let conditions = u.conditions.map_values(|c: Condition| meaning::condition_text(c));
    assert(conditions =~= seq![meaning::condition_text(u.conditions[0])]);
    assert(meaning::condition_text(u.conditions[0]) =~= "id = ?4"@) by {
        reveal_strlit("id = ?4");
        reveal_strlit("id");
        reveal_strlit(" = ");
        reveal_strlit("?");
        reveal_strlit("4");
    }
    assert(meaning::conditions_text(u.conditions) =~= "id = ?4"@) by {
        reveal_strlit("id = ?4");
        reveal_strlit(" AND ");
        reveal_with_fuel(meaning::listed, 2);
    }
    assert(meaning::update_text(u) =~= "UPDATE channels SET status = ?1, last_error = ?2, consecutive_failures = ?3 WHERE id = ?4"@) by {
        reveal_strlit("UPDATE channels SET status = ?1, last_error = ?2, consecutive_failures = ?3 WHERE id = ?4");
        reveal_strlit("status = ?1, last_error = ?2, consecutive_failures = ?3");
        reveal_strlit("id = ?4");
        reveal_strlit("UPDATE ");
        reveal_strlit(" SET ");
        reveal_strlit(" WHERE ");
        reveal_strlit("channels");
    }
}

/// The statement that stores up to when a channel was read.
pub open spec fn sync_update() -> Update {
    Update {
        table: "channels"@,
        sets: seq![("last_sync_cursor"@, 1nat), ("last_sync_at"@, 2nat), ("updated_at"@, 3nat)],
        conditions: seq![Condition::Equal(meaning::column("id"@), Operand::Parameter(4))],
    }
}

/// Its text.
#[verifier::spinoff_prover]
pub proof fn lemma_sync_update_text()
    ensures
        meaning::update_text(sync_update()) == "UPDATE channels SET last_sync_cursor = ?1, last_sync_at = ?2, updated_at = ?3 WHERE id = ?4"@,
{
    let u = sync_update();
    meaning::lemma_small_numbers();
    let sets = u.sets.map_values(|s: (Seq<char>, nat)| s.0 + " = "@ + meaning::parameter_text(s.1));
    assert(sets[0] =~= "last_sync_cursor = ?1"@) by {
        reveal_strlit("last_sync_cursor = ?1");
        reveal_strlit("last_sync_cursor");
        reveal_strlit(" = ");
        reveal_strlit("?");
        reveal_strlit("1");
    }
    assert(sets[1] =~= "last_sync_at = ?2"@) by {
        reveal_strlit("last_sync_at = ?2");
        reveal_strlit("last_sync_at");
        reveal_strlit(" = ");
        reveal_strlit("?");
        reveal_strlit("2");
    }
    assert(sets[2] =~= "updated_at = ?3"@) by {
        reveal_strlit("updated_at = ?3");
        reveal_strlit("updated_at");
        reveal_strlit(" = ");
        reveal_strlit("?");
        reveal_strlit("3");
    }
    assert(meaning::listed(sets, ", "@) =~= "last_sync_cursor = ?1, last_sync_at = ?2, updated_at = ?3"@) by {
        reveal_strlit("last_sync_cursor = ?1, last_sync_at = ?2, updated_at = ?3");
        reveal_strlit(", ");
        reveal_strlit("last_sync_cursor = ?1");
        reveal_strlit("last_sync_at = ?2");
        reveal_strlit("updated_at = ?3");
        reveal_with_fuel(meaning::listed, 4);
    }
    let conditions = u.conditions.map_values(|c: Condition| meaning::condition_text(c));
    assert(conditions =~= seq![meaning::condition_text(u.conditions[0])]);
    assert(meaning::condition_text(u.conditions[0]) =~= "id = ?4"@) by {
        reveal_strlit("id = ?4");
        reveal_strlit("id");
        reveal_strlit(" = ");
        reveal_strlit("?");
        reveal_strlit("4");
    }
    assert(meaning::conditions_text(u.conditions) =~= "id = ?4"@) by {
        reveal_strlit("id = ?4");
        reveal_strlit(" AND ");
        reveal_with_fuel(meaning::listed, 2);
    }
    assert(meaning::update_text(u) =~= "UPDATE channels SET last_sync_cursor = ?1, last_sync_at = ?2, updated_at = ?3 WHERE id = ?4"@) by {
        reveal_strlit("UPDATE channels SET last_sync_cursor = ?1, last_sync_at = ?2, updated_at = ?3 WHERE id = ?4");
        reveal_strlit("last_sync_cursor = ?1, last_sync_at = ?2, updated_at = ?3");
        reveal_strlit("id = ?4");
        reveal_strlit("UPDATE ");
        reveal_strlit(" SET ");
        reveal_strlit(" WHERE ");
        reveal_strlit("channels");
    }
}

/// The status, the error of a failure and the number of failures are stored for the
/// channel with the identifier, and for no other.
pub proof fn only_that_channel_gets_the_status(db: Database, id: Uuid, s: StatusText, failures: u32, r: Row)
    ensures
        meaning::update_text(status_update()) == "UPDATE channels SET status = ?1, last_error = ?2, consecutive_failures = ?3 WHERE id = ?4"@,
        r["id"@] == ValueText::Text(id::uuid_text(id)) ==> meaning::updated(db, status_update(), channels::status_values(id, s, failures), r) == r.insert("status"@, ValueText::Text(status::status_db_text(s))).insert("last_error"@, (match s {
            StatusText::Failed(e) => ValueText::Text(e),
            _ => ValueText::Null,
        })).insert("consecutive_failures"@, ValueText::Integer(failures as int)),
        r["id"@] != ValueText::Text(id::uuid_text(id)) ==> meaning::updated(db, status_update(), channels::status_values(id, s, failures), r) == r,
{
    lemma_status_update_text();
    let u = status_update();
    let params = channels::status_values(id, s, failures);
    meaning::lemma_alone(r, "id"@);
    meaning::lemma_one_condition(db, u.conditions[0], params, meaning::alone(r));
    assert(u.conditions =~= seq![u.conditions[0]]);
    reveal_with_fuel(meaning::with_set, 5);
    assert(u.sets.drop_last() =~= seq![u.sets[0], u.sets[1]]);
    assert(u.sets.drop_last().drop_last() =~= seq![u.sets[0]]);
    assert(u.sets.drop_last().drop_last().drop_last() =~= Seq::empty());
}

/// The cursor and the time up to which a channel was read are stored for the
/// channel with the identifier, and for no other.
pub proof fn only_that_channel_gets_the_sync_state(db: Database, id: Uuid, cursor: Option<String>, synced_at: Timestamp, r: Row)
    ensures
        meaning::update_text(sync_update()) == "UPDATE channels SET last_sync_cursor = ?1, last_sync_at = ?2, updated_at = ?3 WHERE id = ?4"@,
        r["id"@] == ValueText::Text(id::uuid_text(id)) ==> meaning::updated(db, sync_update(), channels::sync_values(id, cursor, synced_at), r) == r.insert("last_sync_cursor"@, (match cursor {
            Some(t) => ValueText::Text(t@),
            None => ValueText::Null,
        })).insert("last_sync_at"@, ValueText::Text(sql::time_text(synced_at))).insert("updated_at"@, ValueText::Text(sql::time_text(synced_at))),
        r["id"@] != ValueText::Text(id::uuid_text(id)) ==> meaning::updated(db, sync_update(), channels::sync_values(id, cursor, synced_at), r) == r,
{
    lemma_sync_update_text();
    let u = sync_update();
    let params = channels::sync_values(id, cursor, synced_at);
    meaning::lemma_alone(r, "id"@);
    meaning::lemma_one_condition(db, u.conditions[0], params, meaning::alone(r));
    assert(u.conditions =~= seq![u.conditions[0]]);
    reveal_with_fuel(meaning::with_set, 5);
    assert(u.sets.drop_last() =~= seq![u.sets[0], u.sets[1]]);
    assert(u.sets.drop_last().drop_last() =~= seq![u.sets[0]]);
    assert(u.sets.drop_last().drop_last().drop_last() =~= Seq::empty());
}

// ---------------------------------------------------------------------------
// Contacts
// ---------------------------------------------------------------------------

/// The statement that stores a contact.
pub open spec fn contact_insert() -> Insert {
    Insert {
        table: "contacts"@,
        columns: seq![
            "id"@,
            "display_name"@,
            "vault_ref"@,
            "created_at"@,
            "updated_at"@,
        ],
        values: meaning::parameters(5),
        conflict: Conflict::Fail,
        gap: " "@,
    }
}

/// The columns of its text.
proof fn lemma_contact_insert_columns()
    ensures
        meaning::listed(contact_insert().columns, ", "@) == "id, display_name, vault_ref, created_at, updated_at"@,
{
    reveal_strlit("id, display_name, vault_ref, created_at, updated_at");
    reveal_strlit(", ");
    reveal_strlit("id");
    reveal_strlit("display_name");
    reveal_strlit("vault_ref");
    reveal_strlit("created_at");
    reveal_strlit("updated_at");
    reveal_with_fuel(meaning::listed, 6);
    assert(meaning::listed(contact_insert().columns, ", "@) =~= "id, display_name, vault_ref, created_at, updated_at"@);
}

/// The values of its text.
proof fn lemma_contact_insert_values()
    ensures
        meaning::listed(
            contact_insert().values.map_values(|w: Written| meaning::written_text(w)),
            ", "@,
        ) == "?1, ?2, ?3, ?4, ?5"@,
{
    let values = contact_insert().values.map_values(|w: Written| meaning::written_text(w));
    meaning::lemma_small_numbers();
    reveal_strlit("?1, ?2, ?3, ?4, ?5");
    reveal_strlit(", ");
    reveal_strlit("?");
    reveal_strlit("1");
    reveal_strlit("2");
    reveal_strlit("3");
    reveal_strlit("4");
    reveal_strlit("5");
    reveal_with_fuel(meaning::listed, 6);
    assert(meaning::listed(values, ", "@) =~= "?1, ?2, ?3, ?4, ?5"@);
}

/// Its text.
#[verifier::spinoff_prover]
pub proof fn lemma_contact_insert_text()
    ensures
        meaning::insert_text(contact_insert()) == INSERT_CONTACT@,
{
    let i = contact_insert();
    lemma_contact_insert_columns();
    lemma_contact_insert_values();
    assert(meaning::insert_text(i) =~= INSERT_CONTACT@) by {
        reveal_strlit("INSERT INTO contacts (id, display_name, vault_ref, created_at, updated_at) VALUES (?1, ?2, ?3, ?4, ?5)");
        reveal_strlit("id, display_name, vault_ref, created_at, updated_at");
        reveal_strlit("?1, ?2, ?3, ?4, ?5");
        reveal_strlit("INSERT INTO ");
        reveal_strlit(" (");
        reveal_strlit(")");
        reveal_strlit(" ");
        reveal_strlit("VALUES (");
        reveal_strlit("contacts");
    }
}

/// The statement that stores an address of a contact.
pub open spec fn identity_insert() -> Insert {
    Insert {
        table: "contact_identities"@,
        columns: seq!["contact_id"@, "channel_type"@, "address"@],
        values: meaning::parameters(3),
        conflict: Conflict::Ignore,
        gap: " "@,
    }
}

/// The columns of its text.
proof fn lemma_identity_insert_columns()
    ensures
        meaning::listed(identity_insert().columns, ", "@) == "contact_id, channel_type, address"@,
{
    reveal_strlit("contact_id, channel_type, address");
    reveal_strlit(", ");
    reveal_strlit("contact_id");
    reveal_strlit("channel_type");
    reveal_strlit("address");
    reveal_with_fuel(meaning::listed, 4);
    assert(meaning::listed(identity_insert().columns, ", "@) =~= "contact_id, channel_type, address"@);
}

/// The values of its text.
proof fn lemma_identity_insert_values()
    ensures
        meaning::listed(
            identity_insert().values.map_values(|w: Written| meaning::written_text(w)),
            ", "@,
        ) == "?1, ?2, ?3"@,
{
    let values = identity_insert().values.map_values(|w: Written| meaning::written_text(w));
    meaning::lemma_small_numbers();
    reveal_strlit("?1, ?2, ?3");
    reveal_strlit(", ");
    reveal_strlit("?");
    reveal_strlit("1");
    reveal_strlit("2");
    reveal_strlit("3");
    reveal_with_fuel(meaning::listed, 4);
    assert(meaning::listed(values, ", "@) =~= "?1, ?2, ?3"@);
}

/// Its text.
#[verifier::spinoff_prover]
pub proof fn lemma_identity_insert_text()
    ensures
        meaning::insert_text(identity_insert()) == INSERT_IDENTITY@,
{
    let i = identity_insert();
    lemma_identity_insert_columns();
    lemma_identity_insert_values();
    assert(meaning::insert_text(i) =~= INSERT_IDENTITY@) by {
        reveal_strlit("INSERT OR IGNORE INTO contact_identities (contact_id, channel_type, address) VALUES (?1, ?2, ?3)");
        reveal_strlit("contact_id, channel_type, address");
        reveal_strlit("?1, ?2, ?3");
        reveal_strlit("INSERT OR IGNORE INTO ");
        reveal_strlit(" (");
        reveal_strlit(")");
        reveal_strlit(" ");
        reveal_strlit("VALUES (");
        reveal_strlit("contact_identities");
    }
}

/// The query for a contact.
pub open spec fn contact_query() -> Query {
    Query {
        selected: Selected::Columns(
            seq![
                meaning::column("display_name"@),
                meaning::column("vault_ref"@),
                meaning::column("created_at"@),
                meaning::column("updated_at"@),
            ],
        ),
        source: Source::Table("contacts"@),
        conditions: seq![Condition::Equal(meaning::column("id"@), Operand::Parameter(1))],
        order: Seq::empty(),
        limit: None,
        offset: None,
        gap: " "@,
    }
}

/// The columns of its text.
proof fn lemma_contact_query_columns()
    ensures
        meaning::selected_text(contact_query().selected) == "display_name, vault_ref, created_at, updated_at"@,
{
    let columns = contact_query().selected->Columns_0.map_values(|c: Column| meaning::column_text(c));
    assert(columns =~= seq!["display_name"@, "vault_ref"@, "created_at"@, "updated_at"@]);
    reveal_strlit("display_name, vault_ref, created_at, updated_at");
    reveal_strlit(", ");
    reveal_strlit("display_name");
    reveal_strlit("vault_ref");
    reveal_strlit("created_at");
    reveal_strlit("updated_at");
    reveal_with_fuel(meaning::listed, 5);
    assert(meaning::listed(columns, ", "@) =~= "display_name, vault_ref, created_at, updated_at"@);
}

/// The conditions of its text.
proof fn lemma_contact_query_conditions()
    ensures
        meaning::conditions_text(contact_query().conditions) == "id = ?1"@,
{
    let q = contact_query();
    meaning::lemma_small_numbers();
    let conditions = q.conditions.map_values(|c: Condition| meaning::condition_text(c));
    assert(conditions =~= seq![meaning::condition_text(q.conditions[0])]);
    assert(meaning::condition_text(q.conditions[0]) =~= "id = ?1"@) by {
        reveal_strlit("id = ?1");
        reveal_strlit("id");
        reveal_strlit(" = ");
        reveal_strlit("?");
        reveal_strlit("1");
    }
    assert(meaning::conditions_text(q.conditions) =~= "id = ?1"@) by {
        reveal_strlit("id = ?1");
        reveal_strlit(" AND ");
        reveal_with_fuel(meaning::listed, 2);
    }
}

/// The end of its text.
proof fn lemma_contact_query_tail()
    ensures
        meaning::tail_text(contact_query()) == " WHERE id = ?1"@,
{
    let q = contact_query();
    lemma_contact_query_conditions();
    assert(meaning::tail_text(q) =~= " WHERE id = ?1"@) by {
        reveal_strlit(" WHERE id = ?1");
        reveal_strlit(" ");
        reveal_strlit("WHERE ");
        reveal_strlit("id = ?1");
    }
}

/// Its text.
pub proof fn lemma_contact_query_text()
    ensures
        meaning::query_text(contact_query()) == "SELECT display_name, vault_ref, created_at, updated_at FROM contacts WHERE id = ?1"@,
{
    let q = contact_query();
    lemma_contact_query_columns();
    lemma_contact_query_tail();
    assert(meaning::query_text(q) =~= "SELECT display_name, vault_ref, created_at, updated_at FROM contacts WHERE id = ?1"@) by {
        reveal_strlit("SELECT display_name, vault_ref, created_at, updated_at FROM contacts WHERE id = ?1");
        reveal_strlit("SELECT ");
        reveal_strlit("FROM ");
        reveal_strlit(" ");
        reveal_strlit("display_name, vault_ref, created_at, updated_at");
        reveal_strlit("contacts");
        reveal_strlit(" WHERE id = ?1");
    }
}

/// The query for the addresses of a contact.
pub open spec fn identities_query() -> Query {
    Query {
        selected: Selected::Columns(
            seq![meaning::column("channel_type"@), meaning::column("address"@)],
        ),
        source: Source::Table("contact_identities"@),
        conditions: seq![Condition::Equal(meaning::column("contact_id"@), Operand::Parameter(1))],
        order: Seq::empty(),
        limit: None,
        offset: None,
        gap: " "@,
    }
}

/// The columns of its text.
proof fn lemma_identities_query_columns()
    ensures
        meaning::selected_text(identities_query().selected) == "channel_type, address"@,
{
    let columns = identities_query().selected->Columns_0.map_values(|c: Column| meaning::column_text(c));
    assert(columns =~= seq!["channel_type"@, "address"@]);
    reveal_strlit("channel_type, address");
    reveal_strlit(", ");
    reveal_strlit("channel_type");
    reveal_strlit("address");
    reveal_with_fuel(meaning::listed, 3);
    assert(meaning::listed(columns, ", "@) =~= "channel_type, address"@);
}

/// The conditions of its text.
proof fn lemma_identities_query_conditions()
    ensures
        meaning::conditions_text(identities_query().conditions) == "contact_id = ?1"@,
{
    let q = identities_query();
    meaning::lemma_small_numbers();
    let conditions = q.conditions.map_values(|c: Condition| meaning::condition_text(c));
    assert(conditions =~= seq![meaning::condition_text(q.conditions[0])]);
    assert(meaning::condition_text(q.conditions[0]) =~= "contact_id = ?1"@) by {
        reveal_strlit("contact_id = ?1");
        reveal_strlit("contact_id");
        reveal_strlit(" = ");
        reveal_strlit("?");
        reveal_strlit("1");
    }
    assert(meaning::conditions_text(q.conditions) =~= "contact_id = ?1"@) by {
        reveal_strlit("contact_id = ?1");
        reveal_strlit(" AND ");
        reveal_with_fuel(meaning::listed, 2);
    }
}

/// The end of its text.
proof fn lemma_identities_query_tail()
    ensures
        meaning::tail_text(identities_query()) == " WHERE contact_id = ?1"@,
{
    let q = identities_query();
    lemma_identities_query_conditions();
    assert(meaning::tail_text(q) =~= " WHERE contact_id = ?1"@) by {
        reveal_strlit(" WHERE contact_id = ?1");
        reveal_strlit(" ");
        reveal_strlit("WHERE ");
        reveal_strlit("contact_id = ?1");
    }
}

/// Its text.
pub proof fn lemma_identities_query_text()
    ensures
        meaning::query_text(identities_query()) == "SELECT channel_type, address FROM contact_identities WHERE contact_id = ?1"@,
{
    let q = identities_query();
    lemma_identities_query_columns();
    lemma_identities_query_tail();
    assert(meaning::query_text(q) =~= "SELECT channel_type, address FROM contact_identities WHERE contact_id = ?1"@) by {
        reveal_strlit("SELECT channel_type, address FROM contact_identities WHERE contact_id = ?1");
        reveal_strlit("SELECT ");
        reveal_strlit("FROM ");
        reveal_strlit(" ");
        reveal_strlit("channel_type, address");
        reveal_strlit("contact_identities");
        reveal_strlit(" WHERE contact_id = ?1");
    }
}

/// The query for the contact with an address.
pub open spec fn address_query() -> Query {
    Query {
        selected: Selected::Columns(
            seq![meaning::column("contact_id"@)],
        ),
        source: Source::Table("contact_identities"@),
        conditions: seq![Condition::Equal(meaning::column("channel_type"@), Operand::Parameter(1)), Condition::Equal(meaning::column("address"@), Operand::Parameter(2))],
        order: Seq::empty(),
        limit: None,
        offset: None,
        gap: " "@,
    }
}

/// The columns of its text.
proof fn lemma_address_query_columns()
    ensures
        meaning::selected_text(address_query().selected) == "contact_id"@,
{
    let columns = address_query().selected->Columns_0.map_values(|c: Column| meaning::column_text(c));
    assert(columns =~= seq!["contact_id"@]);
    reveal_strlit("contact_id");
    reveal_strlit(", ");
    reveal_with_fuel(meaning::listed, 2);
    assert(meaning::listed(columns, ", "@) =~= "contact_id"@);
}

/// The conditions of its text.
proof fn lemma_address_query_conditions()
    ensures
        meaning::conditions_text(address_query().conditions) == "channel_type = ?1 AND address = ?2"@,
{
    let q = address_query();
    meaning::lemma_small_numbers();
    let conditions = q.conditions.map_values(|c: Condition| meaning::condition_text(c));
    assert(conditions =~= seq![
        meaning::condition_text(q.conditions[0]),
        meaning::condition_text(q.conditions[1]),
    ]);
    assert(meaning::condition_text(q.conditions[0]) =~= "channel_type = ?1"@) by {
        reveal_strlit("channel_type = ?1");
        reveal_strlit("channel_type");
        reveal_strlit(" = ");
        reveal_strlit("?");
        reveal_strlit("1");
    }
    assert(meaning::condition_text(q.conditions[1]) =~= "address = ?2"@) by {
        reveal_strlit("address = ?2");
        reveal_strlit("address");
        reveal_strlit(" = ");
        reveal_strlit("?");
        reveal_strlit("2");
    }
    assert(meaning::conditions_text(q.conditions) =~= "channel_type = ?1 AND address = ?2"@) by {
        reveal_strlit("channel_type = ?1 AND address = ?2");
        reveal_strlit(" AND ");
        reveal_strlit("channel_type = ?1");
        reveal_strlit("address = ?2");
        reveal_with_fuel(meaning::listed, 3);
    }
}

/// The end of its text.
proof fn lemma_address_query_tail()
    ensures
        meaning::tail_text(address_query()) == " WHERE channel_type = ?1 AND address = ?2"@,
{
    let q = address_query();
    lemma_address_query_conditions();
    assert(meaning::tail_text(q) =~= " WHERE channel_type = ?1 AND address = ?2"@) by {
        reveal_strlit(" WHERE channel_type = ?1 AND address = ?2");
        reveal_strlit(" ");
        reveal_strlit("WHERE ");
        reveal_strlit("channel_type = ?1 AND address = ?2");
    }
}

/// Its text.
pub proof fn lemma_address_query_text()
    ensures
        meaning::query_text(address_query()) == "SELECT contact_id FROM contact_identities WHERE channel_type = ?1 AND address = ?2"@,
{
    let q = address_query();
    lemma_address_query_columns();
    lemma_address_query_tail();
    assert(meaning::query_text(q) =~= "SELECT contact_id FROM contact_identities WHERE channel_type = ?1 AND address = ?2"@) by {
        reveal_strlit("SELECT contact_id FROM contact_identities WHERE channel_type = ?1 AND address = ?2");
        reveal_strlit("SELECT ");
        reveal_strlit("FROM ");
        reveal_strlit(" ");
        reveal_strlit("contact_id");
        reveal_strlit("contact_identities");
        reveal_strlit(" WHERE channel_type = ?1 AND address = ?2");
    }
}

/// A contact is stored field by field.
pub proof fn a_contact_is_stored_field_by_field(c: Contact, now: ValueText)
    ensures
        meaning::insert_text(contact_insert()) == INSERT_CONTACT@,
        ({
            let row = meaning::new_row(contact_insert(), contacts::contact_values(c), now);
            &&& row["id"@] == ValueText::Text(id::uuid_text(c.id))
            &&& row["display_name"@] == ValueText::Text(c.display_name@)
            &&& row["vault_ref"@] == (match c.vault_ref {
                Some(t) => ValueText::Text(t@),
                None => ValueText::Null,
            })
            &&& row["created_at"@] == ValueText::Text(sql::time_text(c.created_at))
            &&& row["updated_at"@] == ValueText::Text(sql::time_text(c.updated_at))
        }),
{
    lemma_contact_insert_text();
    reveal_strlit("id");
    reveal_strlit("display_name");
    reveal_strlit("vault_ref");
    reveal_strlit("created_at");
    reveal_strlit("updated_at");
    assert("id"@.len() == 2);
    assert("display_name"@.len() == 12);
    assert("vault_ref"@.len() == 9);
    assert("created_at"@.len() == 10);
    assert("updated_at"@.len() == 10);
    assert("created_at"@[0] == 'c');
    assert("updated_at"@[0] == 'u');
    reveal_with_fuel(meaning::filled, 6);
}

/// An address of a contact is stored under the contact, the channel and the address.
pub proof fn an_address_is_stored_field_by_field(contact_id: Uuid, i: ContactIdentity, now: ValueText)
    ensures
        meaning::insert_text(identity_insert()) == INSERT_IDENTITY@,
        ({
            let row = meaning::new_row(identity_insert(), contacts::identity_values(contact_id, i), now);
            &&& row["contact_id"@] == ValueText::Text(id::uuid_text(contact_id))
            &&& row["channel_type"@] == ValueText::Text(channel::channel_db_text(i.channel))
            &&& row["address"@] == ValueText::Text(i.address@)
        }),
{
    lemma_identity_insert_text();
    reveal_strlit("contact_id");
    reveal_strlit("channel_type");
    reveal_strlit("address");
    assert("contact_id"@.len() == 10);
    assert("channel_type"@.len() == 12);
    assert("address"@.len() == 7);
    reveal_with_fuel(meaning::filled, 4);
}

/// A contact is asked for by its identifier alone.
pub proof fn a_contact_is_found_by_its_identifier(db: Database, id: Uuid, r: Row)
    ensures
        meaning::query_text(contact_query()) == "SELECT display_name, vault_ref, created_at, updated_at FROM contacts WHERE id = ?1"@,
        meaning::meets_all(db, contact_query().conditions, seq![ValueText::Text(id::uuid_text(id))], meaning::alone(r)) <==> r["id"@] == ValueText::Text(id::uuid_text(id)),
{
    lemma_contact_query_text();
    meaning::lemma_alone(r, "id"@);
    meaning::lemma_one_condition(db, contact_query().conditions[0], seq![ValueText::Text(id::uuid_text(id))], meaning::alone(r));
    assert(contact_query().conditions =~= seq![contact_query().conditions[0]]);
}

/// The addresses of a contact are those that were stored under it.
pub proof fn addresses_are_found_by_their_contact(db: Database, id: Uuid, r: Row)
    ensures
        meaning::query_text(identities_query()) == "SELECT channel_type, address FROM contact_identities WHERE contact_id = ?1"@,
        meaning::meets_all(db, identities_query().conditions, seq![ValueText::Text(id::uuid_text(id))], meaning::alone(r)) <==> r["contact_id"@] == ValueText::Text(id::uuid_text(id)),
{
    lemma_identities_query_text();
    meaning::lemma_alone(r, "contact_id"@);
    meaning::lemma_one_condition(db, identities_query().conditions[0], seq![ValueText::Text(id::uuid_text(id))], meaning::alone(r));
    assert(identities_query().conditions =~= seq![identities_query().conditions[0]]);
}

/// A contact is found by an address on a channel: by both, whatever else it has.
pub proof fn a_contact_is_found_by_its_address(db: Database, channel: Channel, address: Seq<char>, r: Row)
    ensures
        meaning::query_text(address_query()) == "SELECT contact_id FROM contact_identities WHERE channel_type = ?1 AND address = ?2"@,
        meaning::meets_all(db, address_query().conditions, contacts::address_values(channel, address), meaning::alone(r)) <==> r["channel_type"@] == ValueText::Text(channel::channel_db_text(channel)) && r["address"@] == ValueText::Text(address),
{
    lemma_address_query_text();
    let q = address_query();
    meaning::lemma_alone(r, "channel_type"@);
    meaning::lemma_alone(r, "address"@);
    meaning::lemma_two_conditions(db, q.conditions[0], q.conditions[1], contacts::address_values(channel, address), meaning::alone(r));
    assert(q.conditions =~= seq![q.conditions[0], q.conditions[1]]);
}

/// The contact that is found by an address is the one under which the address was
/// stored, and by no other address or channel is it found.
pub proof fn a_stored_address_leads_to_its_contact(
    db: Database,
    contact_id: Uuid,
    i: ContactIdentity,
    channel: Channel,
    address: Seq<char>,
    now: ValueText,
)
    ensures
        ({
            let r = meaning::new_row(
                identity_insert(),
                contacts::identity_values(contact_id, i),
                now,
            );
            &&& meaning::meets_all(
                db,
                address_query().conditions,
                contacts::address_values(channel, address),
                meaning::alone(r),
            ) <==> i.channel == channel && i.address@ == address
            &&& meaning::value_of(
                meaning::alone(r),
                address_query().selected->Columns_0[0],
            ) == ValueText::Text(id::uuid_text(contact_id))
        }),
{
    let r = meaning::new_row(identity_insert(), contacts::identity_values(contact_id, i), now);
    an_address_is_stored_field_by_field(contact_id, i, now);
    a_contact_is_found_by_its_address(db, channel, address, r);
    meaning::lemma_alone(r, "contact_id"@);
    if channel::channel_db_text(i.channel) == channel::channel_db_text(channel) {
        channel::channel_db_text_is_injective(i.channel, channel);
    }
}

// ---------------------------------------------------------------------------
// Threads
// ---------------------------------------------------------------------------

/// The statement that stores a thread.
pub open spec fn thread_insert() -> Insert {
    Insert {
        table: "threads"@,
        columns: seq![
            "id"@,
            "channel_type"@,
            "subject"@,
            "message_count"@,
            "last_message_at"@,
            "created_at"@,
            "external_thread_id"@,
        ],
        values: meaning::parameters(7),
        conflict: Conflict::Fail,
        gap: " "@,
    }
}

/// The columns of its text.
proof fn lemma_thread_insert_columns()
    ensures
        meaning::listed(thread_insert().columns, ", "@) == "id, channel_type, subject, message_count, last_message_at, created_at, external_thread_id"@,
{
    reveal_strlit("id, channel_type, subject, message_count, last_message_at, created_at, external_thread_id");
    reveal_strlit(", ");
    reveal_strlit("id");
    reveal_strlit("channel_type");
    reveal_strlit("subject");
    reveal_strlit("message_count");
    reveal_strlit("last_message_at");
    reveal_strlit("created_at");
    reveal_strlit("external_thread_id");
    reveal_with_fuel(meaning::listed, 8);
    assert(meaning::listed(thread_insert().columns, ", "@) =~= "id, channel_type, subject, message_count, last_message_at, created_at, external_thread_id"@);
}

/// The values of its text.
proof fn lemma_thread_insert_values()
    ensures
        meaning::listed(
            thread_insert().values.map_values(|w: Written| meaning::written_text(w)),
            ", "@,
        ) == "?1, ?2, ?3, ?4, ?5, ?6, ?7"@,
{
    let values = thread_insert().values.map_values(|w: Written| meaning::written_text(w));
    meaning::lemma_small_numbers();
    reveal_strlit("?1, ?2, ?3, ?4, ?5, ?6, ?7");
    reveal_strlit(", ");
    reveal_strlit("?");
    reveal_strlit("1");
    reveal_strlit("2");
    reveal_strlit("3");
    reveal_strlit("4");
    reveal_strlit("5");
    reveal_strlit("6");
    reveal_strlit("7");
    reveal_with_fuel(meaning::listed, 8);
    assert(meaning::listed(values, ", "@) =~= "?1, ?2, ?3, ?4, ?5, ?6, ?7"@);
}

/// Its text.
#[verifier::spinoff_prover]
pub proof fn lemma_thread_insert_text()
    ensures
        meaning::insert_text(thread_insert()) == INSERT_THREAD@,
{
    let i = thread_insert();
    lemma_thread_insert_columns();
    lemma_thread_insert_values();
    assert(meaning::insert_text(i) =~= INSERT_THREAD@) by {
        reveal_strlit("INSERT INTO threads (id, channel_type, subject, message_count, last_message_at, created_at, external_thread_id) VALUES (?1, ?2, ?3, ?4, ?5, ?6, ?7)");
        reveal_strlit("id, channel_type, subject, message_count, last_message_at, created_at, external_thread_id");
        reveal_strlit("?1, ?2, ?3, ?4, ?5, ?6, ?7");
        reveal_strlit("INSERT INTO ");
        reveal_strlit(" (");
        reveal_strlit(")");
        reveal_strlit(" ");
        reveal_strlit("VALUES (");
        reveal_strlit("threads");
    }
}

/// The query for the thread that a service knows under an identifier.
pub open spec fn thread_query() -> Query {
    Query {
        selected: Selected::Columns(
            seq![
                meaning::column("id"@),
                meaning::column("channel_type"@),
                meaning::column("subject"@),
                meaning::column("message_count"@),
                meaning::column("last_message_at"@),
                meaning::column("created_at"@),
                meaning::column("external_thread_id"@),
            ],
        ),
        source: Source::Table("threads"@),
        conditions: seq![Condition::Equal(meaning::column("channel_type"@), Operand::Parameter(1)), Condition::Equal(meaning::column("external_thread_id"@), Operand::Parameter(2))],
        order: Seq::empty(),
        limit: None,
        offset: None,
        gap: " "@,
    }
}

/// The columns of its text.
proof fn lemma_thread_query_columns()
    ensures
        meaning::selected_text(thread_query().selected) == "id, channel_type, subject, message_count, last_message_at, created_at, external_thread_id"@,
{
    let columns = thread_query().selected->Columns_0.map_values(|c: Column| meaning::column_text(c));
    assert(columns =~= seq![
        "id"@,
        "channel_type"@,
        "subject"@,
        "message_count"@,
        "last_message_at"@,
        "created_at"@,
        "external_thread_id"@,
    ]);
    reveal_strlit("id, channel_type, subject, message_count, last_message_at, created_at, external_thread_id");
    reveal_strlit(", ");
    reveal_strlit("id");
    reveal_strlit("channel_type");
    reveal_strlit("subject");
    reveal_strlit("message_count");
    reveal_strlit("last_message_at");
    reveal_strlit("created_at");
    reveal_strlit("external_thread_id");
    reveal_with_fuel(meaning::listed, 8);
    assert(meaning::listed(columns, ", "@) =~= "id, channel_type, subject, message_count, last_message_at, created_at, external_thread_id"@);
}

/// The conditions of its text.
proof fn lemma_thread_query_conditions()
    ensures
        meaning::conditions_text(thread_query().conditions) == "channel_type = ?1 AND external_thread_id = ?2"@,
{
    let q = thread_query();
    meaning::lemma_small_numbers();
    let conditions = q.conditions.map_values(|c: Condition| meaning::condition_text(c));
    assert(conditions =~= seq![
        meaning::condition_text(q.conditions[0]),
        meaning::condition_text(q.conditions[1]),
    ]);
    assert(meaning::condition_text(q.conditions[0]) =~= "channel_type = ?1"@) by {
        reveal_strlit("channel_type = ?1");
        reveal_strlit("channel_type");
        reveal_strlit(" = ");
        reveal_strlit("?");
        reveal_strlit("1");
    }
    assert(meaning::condition_text(q.conditions[1]) =~= "external_thread_id = ?2"@) by {
        reveal_strlit("external_thread_id = ?2");
        reveal_strlit("external_thread_id");
        reveal_strlit(" = ");
        reveal_strlit("?");
        reveal_strlit("2");
    }
    assert(meaning::conditions_text(q.conditions) =~= "channel_type = ?1 AND external_thread_id = ?2"@) by {
        reveal_strlit("channel_type = ?1 AND external_thread_id = ?2");
        reveal_strlit(" AND ");
        reveal_strlit("channel_type = ?1");
        reveal_strlit("external_thread_id = ?2");
        reveal_with_fuel(meaning::listed, 3);
    }
}

/// The end of its text.
proof fn lemma_thread_query_tail()
    ensures
        meaning::tail_text(thread_query()) == " WHERE channel_type = ?1 AND external_thread_id = ?2"@,
{
    let q = thread_query();
    lemma_thread_query_conditions();
    assert(meaning::tail_text(q) =~= " WHERE channel_type = ?1 AND external_thread_id = ?2"@) by {
        reveal_strlit(" WHERE channel_type = ?1 AND external_thread_id = ?2");
        reveal_strlit(" ");
        reveal_strlit("WHERE ");
        reveal_strlit("channel_type = ?1 AND external_thread_id = ?2");
    }
}

/// Its text.
pub proof fn lemma_thread_query_text()
    ensures
        meaning::query_text(thread_query()) == SELECT_THREAD@,
{
    let q = thread_query();
    lemma_thread_query_columns();
    lemma_thread_query_tail();
    assert(meaning::query_text(q) =~= SELECT_THREAD@) by {
        reveal_strlit("SELECT id, channel_type, subject, message_count, last_message_at, created_at, external_thread_id FROM threads WHERE channel_type = ?1 AND external_thread_id = ?2");
        reveal_strlit("SELECT ");
        reveal_strlit("FROM ");
        reveal_strlit(" ");
        reveal_strlit("id, channel_type, subject, message_count, last_message_at, created_at, external_thread_id");
        reveal_strlit("threads");
        reveal_strlit(" WHERE channel_type = ?1 AND external_thread_id = ?2");
    }
}

/// A thread is stored field by field.
pub proof fn a_thread_is_stored_field_by_field(t: Thread, now: ValueText)
    ensures
        meaning::insert_text(thread_insert()) == INSERT_THREAD@,
        ({
            let row = meaning::new_row(thread_insert(), contacts::thread_values(t), now);
            &&& row["id"@] == ValueText::Text(id::uuid_text(t.id))
            &&& row["channel_type"@] == ValueText::Text(channel::channel_db_text(t.channel))
            &&& row["subject"@] == (match t.subject {
                Some(t) => ValueText::Text(t@),
                None => ValueText::Null,
            })
            &&& row["message_count"@] == ValueText::Integer(t.message_count as int)
            &&& row["last_message_at"@] == ValueText::Text(sql::time_text(t.last_message_at))
            &&& row["created_at"@] == ValueText::Text(sql::time_text(t.created_at))
            &&& row["external_thread_id"@] == (match t.external_thread_id {
                Some(t) => ValueText::Text(t@),
                None => ValueText::Null,
            })
        }),
{
    lemma_thread_insert_text();
    reveal_strlit("id");
    reveal_strlit("channel_type");
    reveal_strlit("subject");
    reveal_strlit("message_count");
    reveal_strlit("last_message_at");
    reveal_strlit("created_at");
    reveal_strlit("external_thread_id");
    assert("id"@.len() == 2);
    assert("channel_type"@.len() == 12);
    assert("subject"@.len() == 7);
    assert("message_count"@.len() == 13);
    assert("last_message_at"@.len() == 15);
    assert("created_at"@.len() == 10);
    assert("external_thread_id"@.len() == 18);
    reveal_with_fuel(meaning::filled, 8);
}

/// A thread is found by its channel and the identifier that the service gave it.
pub proof fn a_thread_is_found_by_what_a_service_calls_it(db: Database, channel: Channel, external_id: Seq<char>, r: Row)
    ensures
        meaning::query_text(thread_query()) == SELECT_THREAD@,
        meaning::meets_all(db, thread_query().conditions, contacts::thread_key(channel, external_id), meaning::alone(r)) <==> r["channel_type"@] == ValueText::Text(channel::channel_db_text(channel)) && r["external_thread_id"@] == ValueText::Text(external_id),
{
    lemma_thread_query_text();
    let q = thread_query();
    meaning::lemma_alone(r, "channel_type"@);
    meaning::lemma_alone(r, "external_thread_id"@);
    meaning::lemma_two_conditions(db, q.conditions[0], q.conditions[1], contacts::thread_key(channel, external_id), meaning::alone(r));
    assert(q.conditions =~= seq![q.conditions[0], q.conditions[1]]);
}

/// A stored thread is found again by its channel and the identifier that the
/// service gave it, and only by these; it is read under the columns under which it
/// was stored, in the same order.
pub proof fn a_stored_thread_is_found_again(
    db: Database,
    t: Thread,
    channel: Channel,
    external_id: Seq<char>,
    now: ValueText,
)
    ensures
        meaning::meets_all(
            db,
            thread_query().conditions,
            contacts::thread_key(channel, external_id),
            meaning::alone(meaning::new_row(thread_insert(), contacts::thread_values(t), now)),
        ) <==> t.channel == channel && message::optional_text(t.external_thread_id) == Some(
            external_id,
        ),
        thread_query().selected->Columns_0 == thread_insert().columns.map_values(
            |name: Seq<char>| meaning::column(name),
        ),
{
    let r = meaning::new_row(thread_insert(), contacts::thread_values(t), now);
    a_thread_is_stored_field_by_field(t, now);
    a_thread_is_found_by_what_a_service_calls_it(db, channel, external_id, r);
    if channel::channel_db_text(t.channel) == channel::channel_db_text(channel) {
        channel::channel_db_text_is_injective(t.channel, channel);
    }
    assert(thread_query().selected->Columns_0 =~= thread_insert().columns.map_values(
        |name: Seq<char>| meaning::column(name),
    ));
}

// ---------------------------------------------------------------------------
// Drafts
// ---------------------------------------------------------------------------

/// The statement that stores a draft.
pub open spec fn draft_insert() -> Insert {
    Insert {
        table: "ai_drafts"@,
        columns: seq![
            "id"@,
            "message_id"@,
            "action_type"@,
            "input_redacted"@,
            "output"@,
            "confidence"@,
            "provider"@,
            "model"@,
        ],
        values: meaning::parameters(8),
        conflict: Conflict::Fail,
        gap: "\n             "@,
    }
}

/// The columns of its text.
proof fn lemma_draft_insert_columns()
    ensures
        meaning::listed(draft_insert().columns, ", "@) == "id, message_id, action_type, input_redacted, output, confidence, provider, model"@,
{
    reveal_strlit("id, message_id, action_type, input_redacted, output, confidence, provider, model");
    reveal_strlit(", ");
    reveal_strlit("id");
    reveal_strlit("message_id");
    reveal_strlit("action_type");
    reveal_strlit("input_redacted");
    reveal_strlit("output");
    reveal_strlit("confidence");
    reveal_strlit("provider");
    reveal_strlit("model");
    reveal_with_fuel(meaning::listed, 9);
    assert(meaning::listed(draft_insert().columns, ", "@) =~= "id, message_id, action_type, input_redacted, output, confidence, provider, model"@);
}

/// The values of its text.
proof fn lemma_draft_insert_values()
    ensures
        meaning::listed(
            draft_insert().values.map_values(|w: Written| meaning::written_text(w)),
            ", "@,
        ) == "?1, ?2, ?3, ?4, ?5, ?6, ?7, ?8"@,
{
    let values = draft_insert().values.map_values(|w: Written| meaning::written_text(w));
    meaning::lemma_small_numbers();
    reveal_strlit("?1, ?2, ?3, ?4, ?5, ?6, ?7, ?8");
    reveal_strlit(", ");
    reveal_strlit("?");
    reveal_strlit("1");
    reveal_strlit("2");
    reveal_strlit("3");
    reveal_strlit("4");
    reveal_strlit("5");
    reveal_strlit("6");
    reveal_strlit("7");
    reveal_strlit("8");
    reveal_with_fuel(meaning::listed, 9);
    assert(meaning::listed(values, ", "@) =~= "?1, ?2, ?3, ?4, ?5, ?6, ?7, ?8"@);
}

/// Its text.
#[verifier::spinoff_prover]
pub proof fn lemma_draft_insert_text()
    ensures
        meaning::insert_text(draft_insert()) == INSERT_DRAFT@,
{
    let i = draft_insert();
    lemma_draft_insert_columns();
    lemma_draft_insert_values();
    assert(meaning::insert_text(i) =~= INSERT_DRAFT@) by {
        reveal_strlit("INSERT INTO ai_drafts (id, message_id, action_type, input_redacted, output, confidence, provider, model)\n             VALUES (?1, ?2, ?3, ?4, ?5, ?6, ?7, ?8)");
        reveal_strlit("id, message_id, action_type, input_redacted, output, confidence, provider, model");
        reveal_strlit("?1, ?2, ?3, ?4, ?5, ?6, ?7, ?8");
        reveal_strlit("INSERT INTO ");
        reveal_strlit(" (");
        reveal_strlit(")");
        reveal_strlit("\n             ");
        reveal_strlit("VALUES (");
        reveal_strlit("ai_drafts");
    }
}

/// The query for the drafts about a message.
pub open spec fn drafts_query() -> Query {
    Query {
        selected: Selected::Columns(
            seq![
                meaning::column("id"@),
                meaning::column("message_id"@),
                meaning::column("action_type"@),
                meaning::column("input_redacted"@),
                meaning::column("output"@),
                meaning::column("user_edited_output"@),
                meaning::column("confidence"@),
                meaning::column("provider"@),
                meaning::column("model"@),
                meaning::column("created_at"@),
            ],
        ),
        source: Source::Table("ai_drafts"@),
        conditions: seq![Condition::Equal(meaning::column("message_id"@), Operand::Parameter(1))],
        order: seq![(meaning::column("created_at"@), Direction::Down), (meaning::column("id"@), Direction::Down)],
        limit: None,
        offset: None,
        gap: "\n             "@,
    }
}

/// The columns of its text.
proof fn lemma_drafts_query_columns()
    ensures
        meaning::selected_text(drafts_query().selected) == "id, message_id, action_type, input_redacted, output, user_edited_output, confidence, provider, model, created_at"@,
{
    let columns = drafts_query().selected->Columns_0.map_values(|c: Column| meaning::column_text(c));
    assert(columns =~= seq![
        "id"@,
        "message_id"@,
        "action_type"@,
        "input_redacted"@,
        "output"@,
        "user_edited_output"@,
        "confidence"@,
        "provider"@,
        "model"@,
        "created_at"@,
    ]);
    reveal_strlit("id, message_id, action_type, input_redacted, output, user_edited_output, confidence, provider, model, created_at");
    reveal_strlit(", ");
    reveal_strlit("id");
    reveal_strlit("message_id");
    reveal_strlit("action_type");
    reveal_strlit("input_redacted");
    reveal_strlit("output");
    reveal_strlit("user_edited_output");
    reveal_strlit("confidence");
    reveal_strlit("provider");
    reveal_strlit("model");
    reveal_strlit("created_at");
    reveal_with_fuel(meaning::listed, 11);
    assert(meaning::listed(columns, ", "@) =~= "id, message_id, action_type, input_redacted, output, user_edited_output, confidence, provider, model, created_at"@);
}

/// The conditions of its text.
proof fn lemma_drafts_query_conditions()
    ensures
        meaning::conditions_text(drafts_query().conditions) == "message_id = ?1"@,
{
    let q = drafts_query();
    meaning::lemma_small_numbers();
    let conditions = q.conditions.map_values(|c: Condition| meaning::condition_text(c));
    assert(conditions =~= seq![meaning::condition_text(q.conditions[0])]);
    assert(meaning::condition_text(q.conditions[0]) =~= "message_id = ?1"@) by {
        reveal_strlit("message_id = ?1");
        reveal_strlit("message_id");
        reveal_strlit(" = ");
        reveal_strlit("?");
        reveal_strlit("1");
    }
    assert(meaning::conditions_text(q.conditions) =~= "message_id = ?1"@) by {
        reveal_strlit("message_id = ?1");
        reveal_strlit(" AND ");
        reveal_with_fuel(meaning::listed, 2);
    }
}

/// The end of its text.
proof fn lemma_drafts_query_tail()
    ensures
        meaning::tail_text(drafts_query()) == "\n             WHERE message_id = ?1\n             ORDER BY created_at DESC, id DESC"@,
{
    let q = drafts_query();
    lemma_drafts_query_conditions();
    let terms = q.order.map_values(|t: (Column, Direction)| meaning::term_text(t));
    assert(terms =~= seq![meaning::term_text(q.order[0]), meaning::term_text(q.order[1])]);
    assert(meaning::term_text(q.order[0]) =~= "created_at DESC"@) by {
        reveal_strlit("created_at DESC");
        reveal_strlit(" DESC");
        reveal_strlit("created_at");
    }
    assert(meaning::term_text(q.order[1]) =~= "id DESC"@) by {
        reveal_strlit("id DESC");
        reveal_strlit(" DESC");
        reveal_strlit("id");
    }
    assert(meaning::listed(terms, ", "@) =~= "created_at DESC, id DESC"@) by {
        reveal_strlit("created_at DESC, id DESC");
        reveal_strlit(", ");
        reveal_strlit("created_at DESC");
        reveal_strlit("id DESC");
        reveal_with_fuel(meaning::listed, 3);
    }
    assert(meaning::tail_text(q) =~= "\n             WHERE message_id = ?1\n             ORDER BY created_at DESC, id DESC"@) by {
        reveal_strlit("\n             WHERE message_id = ?1\n             ORDER BY created_at DESC, id DESC");
        reveal_strlit("\n             ");
        reveal_strlit("WHERE ");
        reveal_strlit("message_id = ?1");
        reveal_strlit("ORDER BY ");
        reveal_strlit("created_at DESC, id DESC");
    }
}

/// Its text.
pub proof fn lemma_drafts_query_text()
    ensures
        meaning::query_text(drafts_query()) == SELECT_DRAFTS@,
{
    let q = drafts_query();
    lemma_drafts_query_columns();
    lemma_drafts_query_tail();
    assert(meaning::query_text(q) =~= SELECT_DRAFTS@) by {
        reveal_strlit("SELECT id, message_id, action_type, input_redacted, output, user_edited_output, confidence, provider, model, created_at\n             FROM ai_drafts\n             WHERE message_id = ?1\n             ORDER BY created_at DESC, id DESC");
        reveal_strlit("SELECT ");
        reveal_strlit("FROM ");
        reveal_strlit("\n             ");
        reveal_strlit("id, message_id, action_type, input_redacted, output, user_edited_output, confidence, provider, model, created_at");
        reveal_strlit("ai_drafts");
        reveal_strlit("\n             WHERE message_id = ?1\n             ORDER BY created_at DESC, id DESC");
    }
}

/// The statement that stores what the user made of a draft.
pub open spec fn draft_update() -> Update {
    Update {
        table: "ai_drafts"@,
        sets: seq![("user_edited_output"@, 1nat)],
        conditions: seq![Condition::Equal(meaning::column("id"@), Operand::Parameter(2))],
    }
}

/// Its text.
#[verifier::spinoff_prover]
pub proof fn lemma_draft_update_text()
    ensures
        meaning::update_text(draft_update()) == "UPDATE ai_drafts SET user_edited_output = ?1 WHERE id = ?2"@,
{
    let u = draft_update();
    meaning::lemma_small_numbers();
    let sets = u.sets.map_values(|s: (Seq<char>, nat)| s.0 + " = "@ + meaning::parameter_text(s.1));
    assert(sets[0] =~= "user_edited_output = ?1"@) by {
        reveal_strlit("user_edited_output = ?1");
        reveal_strlit("user_edited_output");
        reveal_strlit(" = ");
        reveal_strlit("?");
        reveal_strlit("1");
    }
    assert(meaning::listed(sets, ", "@) =~= "user_edited_output = ?1"@) by {
        reveal_strlit("user_edited_output = ?1");
        reveal_strlit(", ");
        reveal_with_fuel(meaning::listed, 2);
    }
    let conditions = u.conditions.map_values(|c: Condition| meaning::condition_text(c));
    assert(conditions =~= seq![meaning::condition_text(u.conditions[0])]);
    assert(meaning::condition_text(u.conditions[0]) =~= "id = ?2"@) by {
        reveal_strlit("id = ?2");
        reveal_strlit("id");
        reveal_strlit(" = ");
        reveal_strlit("?");
        reveal_strlit("2");
    }
    assert(meaning::conditions_text(u.conditions) =~= "id = ?2"@) by {
        reveal_strlit("id = ?2");
        reveal_strlit(" AND ");
        reveal_with_fuel(meaning::listed, 2);
    }
    assert(meaning::update_text(u) =~= "UPDATE ai_drafts SET user_edited_output = ?1 WHERE id = ?2"@) by {
        reveal_strlit("UPDATE ai_drafts SET user_edited_output = ?1 WHERE id = ?2");
        reveal_strlit("user_edited_output = ?1");
        reveal_strlit("id = ?2");
        reveal_strlit("UPDATE ");
        reveal_strlit(" SET ");
        reveal_strlit(" WHERE ");
        reveal_strlit("ai_drafts");
    }
}

/// A draft is stored field by field.
pub proof fn a_draft_is_stored_field_by_field(d: NewDraft, now: ValueText)
    ensures
        meaning::insert_text(draft_insert()) == INSERT_DRAFT@,
        ({
            let row = meaning::new_row(draft_insert(), drafts::draft_values(d), now);
            &&& row["id"@] == ValueText::Text(id::uuid_text(d.id))
            &&& row["message_id"@] == (match d.message_id {
                Some(m) => ValueText::Text(id::uuid_text(m)),
                None => ValueText::Null,
            })
            &&& row["action_type"@] == ValueText::Text(d.action_type@)
            &&& row["input_redacted"@] == ValueText::Text(d.input_redacted@)
            &&& row["output"@] == ValueText::Text(d.output@)
            &&& row["confidence"@] == ValueText::Real(d.confidence)
            &&& row["provider"@] == ValueText::Text(d.provider@)
            &&& row["model"@] == ValueText::Text(d.model@)
        }),
{
    lemma_draft_insert_text();
    reveal_strlit("id");
    reveal_strlit("message_id");
    reveal_strlit("action_type");
    reveal_strlit("input_redacted");
    reveal_strlit("output");
    reveal_strlit("confidence");
    reveal_strlit("provider");
    reveal_strlit("model");
    assert("id"@.len() == 2);
    assert("message_id"@.len() == 10);
    assert("action_type"@.len() == 11);
    assert("input_redacted"@.len() == 14);
    assert("output"@.len() == 6);
    assert("confidence"@.len() == 10);
    assert("provider"@.len() == 8);
    assert("model"@.len() == 5);
    assert("message_id"@[0] == 'm');
    assert("confidence"@[0] == 'c');
    reveal_with_fuel(meaning::filled, 9);
}

/// The drafts about a message are those that were stored for it.
pub proof fn drafts_are_those_about_the_message(db: Database, message_id: Uuid, r: Row)
    ensures
        meaning::query_text(drafts_query()) == SELECT_DRAFTS@,
        meaning::meets_all(db, drafts_query().conditions, seq![ValueText::Text(id::uuid_text(message_id))], meaning::alone(r)) <==> r["message_id"@] == ValueText::Text(id::uuid_text(message_id)),
{
    lemma_drafts_query_text();
    meaning::lemma_alone(r, "message_id"@);
    meaning::lemma_one_condition(db, drafts_query().conditions[0], seq![ValueText::Text(id::uuid_text(message_id))], meaning::alone(r));
    assert(drafts_query().conditions =~= seq![drafts_query().conditions[0]]);
}

/// What the user made of a draft is stored beside it: the draft with the identifier
/// keeps all that it held, and no other is touched.
pub proof fn an_edit_stands_beside_the_draft(db: Database, id: Uuid, edited: Seq<char>, r: Row)
    ensures
        meaning::update_text(draft_update()) == "UPDATE ai_drafts SET user_edited_output = ?1 WHERE id = ?2"@,
        r["id"@] == ValueText::Text(id::uuid_text(id)) ==> meaning::updated(db, draft_update(), drafts::edit_values(id, edited), r) == r.insert("user_edited_output"@, ValueText::Text(edited)),
        r["id"@] != ValueText::Text(id::uuid_text(id)) ==> meaning::updated(db, draft_update(), drafts::edit_values(id, edited), r) == r,
{
    lemma_draft_update_text();
    let u = draft_update();
    let params = drafts::edit_values(id, edited);
    meaning::lemma_alone(r, "id"@);
    meaning::lemma_one_condition(db, u.conditions[0], params, meaning::alone(r));
    assert(u.conditions =~= seq![u.conditions[0]]);
    reveal_with_fuel(meaning::with_set, 3);
    assert(u.sets.drop_last() =~= Seq::empty());
}

/// The time at which a thing was stored, as far as it is a text.
pub open spec fn made_before(a: Found, b: Found, name: Seq<char>) -> bool {
    match (
        meaning::value_of(a, meaning::column(name)),
        meaning::value_of(b, meaning::column(name)),
    ) {
        (ValueText::Text(x), ValueText::Text(y)) => meaning::text_less(x, y),
        (ValueText::Integer(x), ValueText::Integer(y)) => x < y,
        _ => false,
    }
}

/// The drafts about a message come newest first: none was made before one that
/// stands behind it. All of them come.
pub proof fn drafts_come_newest_first(
    db: Database,
    params: Seq<ValueText>,
    all: Seq<Found>,
    i: int,
    k: int,
)
    requires
        meaning::lists(db, drafts_query(), params, all),
        0 <= i < k < all.len(),
    ensures
        meaning::query_text(drafts_query()) == SELECT_DRAFTS@,
        !made_before(all[i], all[k], "created_at"@),
        meaning::given(drafts_query(), params, all) == all,
{
    lemma_drafts_query_text();
    assert(meaning::sorted_so(db, drafts_query().order, all[i], all[k]));
    assert(drafts_query().order[0] == (meaning::column("created_at"@), Direction::Down));
}

// ---------------------------------------------------------------------------
// Replies
// ---------------------------------------------------------------------------

/// The statement that stores a reply.
pub open spec fn reply_upsert() -> Insert {
    Insert {
        table: "reply_drafts"@,
        columns: seq![
            "thread_id"@,
            "in_reply_to_message_id"@,
            "body"@,
            "subject"@,
            "updated_at"@,
        ],
        values: seq![Written::Parameter(1), Written::Parameter(2), Written::Parameter(3), Written::Parameter(4), Written::Now],
        conflict: Conflict::Replace {
            key: "thread_id"@,
            columns: seq!["in_reply_to_message_id"@, "body"@, "subject"@, "updated_at"@],
        },
        gap: "\n             "@,
    }
}

/// The columns of its text.
proof fn lemma_reply_upsert_columns()
    ensures
        meaning::listed(reply_upsert().columns, ", "@) == "thread_id, in_reply_to_message_id, body, subject, updated_at"@,
{
    reveal_strlit("thread_id, in_reply_to_message_id, body, subject, updated_at");
    reveal_strlit(", ");
    reveal_strlit("thread_id");
    reveal_strlit("in_reply_to_message_id");
    reveal_strlit("body");
    reveal_strlit("subject");
    reveal_strlit("updated_at");
    reveal_with_fuel(meaning::listed, 6);
    assert(meaning::listed(reply_upsert().columns, ", "@) =~= "thread_id, in_reply_to_message_id, body, subject, updated_at"@);
}

/// The values of its text.
proof fn lemma_reply_upsert_values()
    ensures
        meaning::listed(
            reply_upsert().values.map_values(|w: Written| meaning::written_text(w)),
            ", "@,
        ) == "?1, ?2, ?3, ?4, strftime('%Y-%m-%dT%H:%M:%SZ', 'now')"@,
{
    let values = reply_upsert().values.map_values(|w: Written| meaning::written_text(w));
    meaning::lemma_small_numbers();
    reveal_strlit("?1, ?2, ?3, ?4, strftime('%Y-%m-%dT%H:%M:%SZ', 'now')");
    reveal_strlit(", ");
    reveal_strlit("?");
    reveal_strlit("1");
    reveal_strlit("2");
    reveal_strlit("3");
    reveal_strlit("4");
    reveal_strlit("strftime('%Y-%m-%dT%H:%M:%SZ', 'now')");
    reveal_with_fuel(meaning::listed, 6);
    assert(meaning::listed(values, ", "@) =~= "?1, ?2, ?3, ?4, strftime('%Y-%m-%dT%H:%M:%SZ', 'now')"@);
}

/// Its text.
#[verifier::spinoff_prover]
pub proof fn lemma_reply_upsert_text()
    ensures
        meaning::insert_text(reply_upsert()) == UPSERT_REPLY@,
{
    let i = reply_upsert();
    lemma_reply_upsert_columns();
    lemma_reply_upsert_values();
    let taken = i.conflict->Replace_columns.map_values(|c: Seq<char>| c + " = excluded."@ + c);
    assert(taken =~= seq!["in_reply_to_message_id"@ + " = excluded."@ + "in_reply_to_message_id"@, "body"@ + " = excluded."@ + "body"@, "subject"@ + " = excluded."@ + "subject"@, "updated_at"@ + " = excluded."@ + "updated_at"@]);
    assert(taken[0] =~= "in_reply_to_message_id = excluded.in_reply_to_message_id"@) by {
        reveal_strlit("in_reply_to_message_id = excluded.in_reply_to_message_id");
        reveal_strlit("in_reply_to_message_id");
        reveal_strlit(" = excluded.");
    }
    assert(taken[1] =~= "body = excluded.body"@) by {
        reveal_strlit("body = excluded.body");
        reveal_strlit("body");
        reveal_strlit(" = excluded.");
    }
    assert(taken[2] =~= "subject = excluded.subject"@) by {
        reveal_strlit("subject = excluded.subject");
        reveal_strlit("subject");
        reveal_strlit(" = excluded.");
    }
    assert(taken[3] =~= "updated_at = excluded.updated_at"@) by {
        reveal_strlit("updated_at = excluded.updated_at");
        reveal_strlit("updated_at");
        reveal_strlit(" = excluded.");
    }
    assert(meaning::listed(taken, ", "@) =~= "in_reply_to_message_id = excluded.in_reply_to_message_id, body = excluded.body, subject = excluded.subject, updated_at = excluded.updated_at"@) by {
        reveal_strlit("in_reply_to_message_id = excluded.in_reply_to_message_id, body = excluded.body, subject = excluded.subject, updated_at = excluded.updated_at");
        reveal_strlit(", ");
        reveal_strlit("in_reply_to_message_id = excluded.in_reply_to_message_id");
        reveal_strlit("body = excluded.body");
        reveal_strlit("subject = excluded.subject");
        reveal_strlit("updated_at = excluded.updated_at");
        reveal_with_fuel(meaning::listed, 5);
    }
    assert(meaning::insert_text(i) =~= UPSERT_REPLY@) by {
        reveal_strlit("INSERT INTO reply_drafts (thread_id, in_reply_to_message_id, body, subject, updated_at)\n             VALUES (?1, ?2, ?3, ?4, strftime('%Y-%m-%dT%H:%M:%SZ', 'now'))\n             ON CONFLICT(thread_id) DO UPDATE SET in_reply_to_message_id = excluded.in_reply_to_message_id, body = excluded.body, subject = excluded.subject, updated_at = excluded.updated_at");
        reveal_strlit("thread_id, in_reply_to_message_id, body, subject, updated_at");
        reveal_strlit("?1, ?2, ?3, ?4, strftime('%Y-%m-%dT%H:%M:%SZ', 'now')");
        reveal_strlit("INSERT INTO ");
        reveal_strlit(" (");
        reveal_strlit(")");
        reveal_strlit("\n             ");
        reveal_strlit("VALUES (");
        reveal_strlit("reply_drafts");
        reveal_strlit("ON CONFLICT(");
        reveal_strlit(") DO UPDATE SET ");
        reveal_strlit("thread_id");
        reveal_strlit("in_reply_to_message_id = excluded.in_reply_to_message_id, body = excluded.body, subject = excluded.subject, updated_at = excluded.updated_at");
    }
}

/// The query for the reply of a thread.
pub open spec fn reply_query() -> Query {
    Query {
        selected: Selected::Columns(
            seq![
                meaning::column("thread_id"@),
                meaning::column("in_reply_to_message_id"@),
                meaning::column("body"@),
                meaning::column("subject"@),
                meaning::column("updated_at"@),
            ],
        ),
        source: Source::Table("reply_drafts"@),
        conditions: seq![Condition::Equal(meaning::column("thread_id"@), Operand::Parameter(1))],
        order: Seq::empty(),
        limit: None,
        offset: None,
        gap: "\n                 "@,
    }
}

/// The columns of its text.
proof fn lemma_reply_query_columns()
    ensures
        meaning::selected_text(reply_query().selected) == "thread_id, in_reply_to_message_id, body, subject, updated_at"@,
{
    let columns = reply_query().selected->Columns_0.map_values(|c: Column| meaning::column_text(c));
    assert(columns =~= seq![
        "thread_id"@,
        "in_reply_to_message_id"@,
        "body"@,
        "subject"@,
        "updated_at"@,
    ]);
    reveal_strlit("thread_id, in_reply_to_message_id, body, subject, updated_at");
    reveal_strlit(", ");
    reveal_strlit("thread_id");
    reveal_strlit("in_reply_to_message_id");
    reveal_strlit("body");
    reveal_strlit("subject");
    reveal_strlit("updated_at");
    reveal_with_fuel(meaning::listed, 6);
    assert(meaning::listed(columns, ", "@) =~= "thread_id, in_reply_to_message_id, body, subject, updated_at"@);
}

/// The conditions of its text.
proof fn lemma_reply_query_conditions()
    ensures
        meaning::conditions_text(reply_query().conditions) == "thread_id = ?1"@,
{
    let q = reply_query();
    meaning::lemma_small_numbers();
    let conditions = q.conditions.map_values(|c: Condition| meaning::condition_text(c));
    assert(conditions =~= seq![meaning::condition_text(q.conditions[0])]);
    assert(meaning::condition_text(q.conditions[0]) =~= "thread_id = ?1"@) by {
        reveal_strlit("thread_id = ?1");
        reveal_strlit("thread_id");
        reveal_strlit(" = ");
        reveal_strlit("?");
        reveal_strlit("1");
    }
    assert(meaning::conditions_text(q.conditions) =~= "thread_id = ?1"@) by {
        reveal_strlit("thread_id = ?1");
        reveal_strlit(" AND ");
        reveal_with_fuel(meaning::listed, 2);
    }
}

/// The end of its text.
proof fn lemma_reply_query_tail()
    ensures
        meaning::tail_text(reply_query()) == "\n                 WHERE thread_id = ?1"@,
{
    let q = reply_query();
    lemma_reply_query_conditions();
    assert(meaning::tail_text(q) =~= "\n                 WHERE thread_id = ?1"@) by {
        reveal_strlit("\n                 WHERE thread_id = ?1");
        reveal_strlit("\n                 ");
        reveal_strlit("WHERE ");
        reveal_strlit("thread_id = ?1");
    }
}

/// Its text.
pub proof fn lemma_reply_query_text()
    ensures
        meaning::query_text(reply_query()) == SELECT_REPLY@,
{
    let q = reply_query();
    lemma_reply_query_columns();
    lemma_reply_query_tail();
    assert(meaning::query_text(q) =~= SELECT_REPLY@) by {
        reveal_strlit("SELECT thread_id, in_reply_to_message_id, body, subject, updated_at\n                 FROM reply_drafts\n                 WHERE thread_id = ?1");
        reveal_strlit("SELECT ");
        reveal_strlit("FROM ");
        reveal_strlit("\n                 ");
        reveal_strlit("thread_id, in_reply_to_message_id, body, subject, updated_at");
        reveal_strlit("reply_drafts");
        reveal_strlit("\n                 WHERE thread_id = ?1");
    }
}

/// The statement that takes the reply of a thread away.
pub open spec fn reply_delete() -> Delete {
    Delete {
        table: "reply_drafts"@,
        conditions: seq![Condition::Equal(meaning::column("thread_id"@), Operand::Parameter(1))],
    }
}

/// Its text.
pub proof fn lemma_reply_delete_text()
    ensures
        meaning::delete_text(reply_delete()) == "DELETE FROM reply_drafts WHERE thread_id = ?1"@,
{
    let d = reply_delete();
    meaning::lemma_small_numbers();
    let conditions = d.conditions.map_values(|c: Condition| meaning::condition_text(c));
    assert(conditions =~= seq![meaning::condition_text(d.conditions[0])]);
    assert(meaning::condition_text(d.conditions[0]) =~= "thread_id = ?1"@) by {
        reveal_strlit("thread_id = ?1");
        reveal_strlit("thread_id");
        reveal_strlit(" = ");
        reveal_strlit("?");
        reveal_strlit("1");
    }
    assert(meaning::conditions_text(d.conditions) =~= "thread_id = ?1"@) by {
        reveal_strlit("thread_id = ?1");
        reveal_strlit(" AND ");
        reveal_with_fuel(meaning::listed, 2);
    }
    assert(meaning::delete_text(d) =~= "DELETE FROM reply_drafts WHERE thread_id = ?1"@) by {
        reveal_strlit("DELETE FROM reply_drafts WHERE thread_id = ?1");
        reveal_strlit("thread_id = ?1");
        reveal_strlit("DELETE FROM ");
        reveal_strlit(" WHERE ");
        reveal_strlit("reply_drafts");
    }
}

/// A reply is stored field by field, with the time at which it is stored.
pub proof fn a_reply_is_stored_field_by_field(d: NewReplyDraft, now: ValueText)
    ensures
        meaning::insert_text(reply_upsert()) == UPSERT_REPLY@,
        ({
            let row = meaning::new_row(reply_upsert(), reply_drafts::reply_values(d), now);
            &&& row["thread_id"@] == ValueText::Text(id::uuid_text(d.thread_id))
            &&& row["in_reply_to_message_id"@] == ValueText::Text(id::uuid_text(d.in_reply_to_message_id))
            &&& row["body"@] == ValueText::Text(d.body@)
            &&& row["subject"@] == (match d.subject {
                Some(t) => ValueText::Text(t@),
                None => ValueText::Null,
            })
            &&& row["updated_at"@] == now
        }),
{
    lemma_reply_upsert_text();
    reveal_strlit("thread_id");
    reveal_strlit("in_reply_to_message_id");
    reveal_strlit("body");
    reveal_strlit("subject");
    reveal_strlit("updated_at");
    assert("thread_id"@.len() == 9);
    assert("in_reply_to_message_id"@.len() == 22);
    assert("body"@.len() == 4);
    assert("subject"@.len() == 7);
    assert("updated_at"@.len() == 10);
    reveal_with_fuel(meaning::filled, 6);
}

/// A thread has one reply: a later one takes the place of the thread's earlier
/// one, all of it, and leaves those of other threads.
pub proof fn a_later_reply_takes_the_place_of_the_earlier(
    d: NewReplyDraft,
    now: ValueText,
    r: Row,
)
    ensures
        ({
            let w = meaning::new_row(reply_upsert(), reply_drafts::reply_values(d), now);
            let c = reply_upsert().conflict;
            let kept = meaning::kept_of(c, r, w);
            &&& meaning::in_the_way(c, r, w) <==> r["thread_id"@] == ValueText::Text(
                id::uuid_text(d.thread_id),
            )
            &&& meaning::in_the_way(c, r, w) ==> {
                &&& kept["thread_id"@] == ValueText::Text(id::uuid_text(d.thread_id))
                &&& kept["in_reply_to_message_id"@] == ValueText::Text(
                    id::uuid_text(d.in_reply_to_message_id),
                )
                &&& kept["body"@] == ValueText::Text(d.body@)
                &&& kept["subject"@] == (match d.subject {
                    Some(t) => ValueText::Text(t@),
                    None => ValueText::Null,
                })
                &&& kept["updated_at"@] == now
            }
        }),
{
    a_reply_is_stored_field_by_field(d, now);
    reveal_strlit("thread_id");
    reveal_strlit("in_reply_to_message_id");
    reveal_strlit("body");
    reveal_strlit("subject");
    reveal_strlit("updated_at");
    assert("thread_id"@.len() == 9);
    assert("in_reply_to_message_id"@.len() == 22);
    assert("body"@.len() == 4);
    assert("subject"@.len() == 7);
    assert("updated_at"@.len() == 10);
    reveal_with_fuel(meaning::taken_over, 5);
}

/// A reply is asked for by its thread alone.
pub proof fn a_reply_is_found_by_its_thread(db: Database, thread_id: Uuid, r: Row)
    ensures
        meaning::query_text(reply_query()) == SELECT_REPLY@,
        meaning::meets_all(db, reply_query().conditions, seq![ValueText::Text(id::uuid_text(thread_id))], meaning::alone(r)) <==> r["thread_id"@] == ValueText::Text(id::uuid_text(thread_id)),
{
    lemma_reply_query_text();
    meaning::lemma_alone(r, "thread_id"@);
    meaning::lemma_one_condition(db, reply_query().conditions[0], seq![ValueText::Text(id::uuid_text(thread_id))], meaning::alone(r));
    assert(reply_query().conditions =~= seq![reply_query().conditions[0]]);
}

/// Taking the reply of a thread away takes that reply and no other.
pub proof fn only_that_reply_is_taken_away(db: Database, thread_id: Uuid, r: Row)
    ensures
        meaning::delete_text(reply_delete()) == "DELETE FROM reply_drafts WHERE thread_id = ?1"@,
        meaning::survives(
            db,
            reply_delete(),
            seq![ValueText::Text(id::uuid_text(thread_id))],
            r,
        ) <==> r["thread_id"@] != ValueText::Text(id::uuid_text(thread_id)),
{
    lemma_reply_delete_text();
    let params = seq![ValueText::Text(id::uuid_text(thread_id))];
    let d = reply_delete();
    meaning::lemma_alone(r, "thread_id"@);
    meaning::lemma_one_condition(db, d.conditions[0], params, meaning::alone(r));
    assert(d.conditions =~= seq![d.conditions[0]]);
}

// ---------------------------------------------------------------------------
// The log
// ---------------------------------------------------------------------------

/// The statement that adds a line to the log.
pub open spec fn decision_insert() -> Insert {
    Insert {
        table: "action_log"@,
        columns: seq![
            "action_type"@,
            "entity_type"@,
            "entity_id"@,
            "reasoning"@,
            "confidence_score"@,
        ],
        values: meaning::parameters(5),
        conflict: Conflict::Fail,
        gap: "\n             "@,
    }
}

/// The columns of its text.
proof fn lemma_decision_insert_columns()
    ensures
        meaning::listed(decision_insert().columns, ", "@) == "action_type, entity_type, entity_id, reasoning, confidence_score"@,
{
    reveal_strlit("action_type, entity_type, entity_id, reasoning, confidence_score");
    reveal_strlit(", ");
    reveal_strlit("action_type");
    reveal_strlit("entity_type");
    reveal_strlit("entity_id");
    reveal_strlit("reasoning");
    reveal_strlit("confidence_score");
    reveal_with_fuel(meaning::listed, 6);
    assert(meaning::listed(decision_insert().columns, ", "@) =~= "action_type, entity_type, entity_id, reasoning, confidence_score"@);
}

/// The values of its text.
proof fn lemma_decision_insert_values()
    ensures
        meaning::listed(
            decision_insert().values.map_values(|w: Written| meaning::written_text(w)),
            ", "@,
        ) == "?1, ?2, ?3, ?4, ?5"@,
{
    let values = decision_insert().values.map_values(|w: Written| meaning::written_text(w));
    meaning::lemma_small_numbers();
    reveal_strlit("?1, ?2, ?3, ?4, ?5");
    reveal_strlit(", ");
    reveal_strlit("?");
    reveal_strlit("1");
    reveal_strlit("2");
    reveal_strlit("3");
    reveal_strlit("4");
    reveal_strlit("5");
    reveal_with_fuel(meaning::listed, 6);
    assert(meaning::listed(values, ", "@) =~= "?1, ?2, ?3, ?4, ?5"@);
}

/// Its text.
#[verifier::spinoff_prover]
pub proof fn lemma_decision_insert_text()
    ensures
        meaning::insert_text(decision_insert()) == INSERT_DECISION@,
{
    let i = decision_insert();
    lemma_decision_insert_columns();
    lemma_decision_insert_values();
    assert(meaning::insert_text(i) =~= INSERT_DECISION@) by {
        reveal_strlit("INSERT INTO action_log (action_type, entity_type, entity_id, reasoning, confidence_score)\n             VALUES (?1, ?2, ?3, ?4, ?5)");
        reveal_strlit("action_type, entity_type, entity_id, reasoning, confidence_score");
        reveal_strlit("?1, ?2, ?3, ?4, ?5");
        reveal_strlit("INSERT INTO ");
        reveal_strlit(" (");
        reveal_strlit(")");
        reveal_strlit("\n             ");
        reveal_strlit("VALUES (");
        reveal_strlit("action_log");
    }
}

/// The query for the lines about an entity.
pub open spec fn decisions_query() -> Query {
    Query {
        selected: Selected::Columns(
            seq![
                meaning::column("id"@),
                meaning::column("action_type"@),
                meaning::column("entity_type"@),
                meaning::column("entity_id"@),
                meaning::column("reasoning"@),
                meaning::column("confidence_score"@),
                meaning::column("created_at"@),
            ],
        ),
        source: Source::Table("action_log"@),
        conditions: seq![Condition::Equal(meaning::column("entity_type"@), Operand::Parameter(1)), Condition::Equal(meaning::column("entity_id"@), Operand::Parameter(2))],
        order: seq![(meaning::column("id"@), Direction::Up)],
        limit: None,
        offset: None,
        gap: "\n             "@,
    }
}

/// The columns of its text.
proof fn lemma_decisions_query_columns()
    ensures
        meaning::selected_text(decisions_query().selected) == "id, action_type, entity_type, entity_id, reasoning, confidence_score, created_at"@,
{
    let columns = decisions_query().selected->Columns_0.map_values(|c: Column| meaning::column_text(c));
    assert(columns =~= seq![
        "id"@,
        "action_type"@,
        "entity_type"@,
        "entity_id"@,
        "reasoning"@,
        "confidence_score"@,
        "created_at"@,
    ]);
    reveal_strlit("id, action_type, entity_type, entity_id, reasoning, confidence_score, created_at");
    reveal_strlit(", ");
    reveal_strlit("id");
    reveal_strlit("action_type");
    reveal_strlit("entity_type");
    reveal_strlit("entity_id");
    reveal_strlit("reasoning");
    reveal_strlit("confidence_score");
    reveal_strlit("created_at");
    reveal_with_fuel(meaning::listed, 8);
    assert(meaning::listed(columns, ", "@) =~= "id, action_type, entity_type, entity_id, reasoning, confidence_score, created_at"@);
}

/// The conditions of its text.
proof fn lemma_decisions_query_conditions()
    ensures
        meaning::conditions_text(decisions_query().conditions) == "entity_type = ?1 AND entity_id = ?2"@,
{
    let q = decisions_query();
    meaning::lemma_small_numbers();
    let conditions = q.conditions.map_values(|c: Condition| meaning::condition_text(c));
    assert(conditions =~= seq![
        meaning::condition_text(q.conditions[0]),
        meaning::condition_text(q.conditions[1]),
    ]);
    assert(meaning::condition_text(q.conditions[0]) =~= "entity_type = ?1"@) by {
        reveal_strlit("entity_type = ?1");
        reveal_strlit("entity_type");
        reveal_strlit(" = ");
        reveal_strlit("?");
        reveal_strlit("1");
    }
    assert(meaning::condition_text(q.conditions[1]) =~= "entity_id = ?2"@) by {
        reveal_strlit("entity_id = ?2");
        reveal_strlit("entity_id");
        reveal_strlit(" = ");
        reveal_strlit("?");
        reveal_strlit("2");
    }
    assert(meaning::conditions_text(q.conditions) =~= "entity_type = ?1 AND entity_id = ?2"@) by {
        reveal_strlit("entity_type = ?1 AND entity_id = ?2");
        reveal_strlit(" AND ");
        reveal_strlit("entity_type = ?1");
        reveal_strlit("entity_id = ?2");
        reveal_with_fuel(meaning::listed, 3);
    }
}

/// The end of its text.
proof fn lemma_decisions_query_tail()
    ensures
        meaning::tail_text(decisions_query()) == "\n             WHERE entity_type = ?1 AND entity_id = ?2\n             ORDER BY id ASC"@,
{
    let q = decisions_query();
    lemma_decisions_query_conditions();
    let terms = q.order.map_values(|t: (Column, Direction)| meaning::term_text(t));
    assert(terms =~= seq![meaning::term_text(q.order[0])]);
    assert(meaning::term_text(q.order[0]) =~= "id ASC"@) by {
        reveal_strlit("id ASC");
        reveal_strlit(" ASC");
        reveal_strlit("id");
    }
    assert(meaning::listed(terms, ", "@) =~= "id ASC"@) by {
        reveal_strlit("id ASC");
        reveal_strlit(", ");
        reveal_with_fuel(meaning::listed, 2);
    }
    assert(meaning::tail_text(q) =~= "\n             WHERE entity_type = ?1 AND entity_id = ?2\n             ORDER BY id ASC"@) by {
        reveal_strlit("\n             WHERE entity_type = ?1 AND entity_id = ?2\n             ORDER BY id ASC");
        reveal_strlit("\n             ");
        reveal_strlit("WHERE ");
        reveal_strlit("entity_type = ?1 AND entity_id = ?2");
        reveal_strlit("ORDER BY ");
        reveal_strlit("id ASC");
    }
}

/// Its text.
pub proof fn lemma_decisions_query_text()
    ensures
        meaning::query_text(decisions_query()) == SELECT_DECISIONS@,
{
    let q = decisions_query();
    lemma_decisions_query_columns();
    lemma_decisions_query_tail();
    assert(meaning::query_text(q) =~= SELECT_DECISIONS@) by {
        reveal_strlit("SELECT id, action_type, entity_type, entity_id, reasoning, confidence_score, created_at\n             FROM action_log\n             WHERE entity_type = ?1 AND entity_id = ?2\n             ORDER BY id ASC");
        reveal_strlit("SELECT ");
        reveal_strlit("FROM ");
        reveal_strlit("\n             ");
        reveal_strlit("id, action_type, entity_type, entity_id, reasoning, confidence_score, created_at");
        reveal_strlit("action_log");
        reveal_strlit("\n             WHERE entity_type = ?1 AND entity_id = ?2\n             ORDER BY id ASC");
    }
}

/// A decision is logged field by field.
pub proof fn a_decision_is_logged_field_by_field(e: LogEntry, confidence: u64, now: ValueText)
    ensures
        meaning::insert_text(decision_insert()) == INSERT_DECISION@,
        ({
            let row = meaning::new_row(decision_insert(), ai_log::decision_values(e, confidence), now);
            &&& row["action_type"@] == ValueText::Text(e.action_type@)
            &&& row["entity_type"@] == ValueText::Text(e.entity_type@)
            &&& row["entity_id"@] == ValueText::Text(e.entity_id@)
            &&& row["reasoning"@] == ValueText::Text(e.description@)
            &&& row["confidence_score"@] == ValueText::Real(confidence)
        }),
{
    lemma_decision_insert_text();
    reveal_strlit("action_type");
    reveal_strlit("entity_type");
    reveal_strlit("entity_id");
    reveal_strlit("reasoning");
    reveal_strlit("confidence_score");
    assert("action_type"@.len() == 11);
    assert("entity_type"@.len() == 11);
    assert("entity_id"@.len() == 9);
    assert("reasoning"@.len() == 9);
    assert("confidence_score"@.len() == 16);
    assert("action_type"@[0] == 'a');
    assert("entity_type"@[0] == 'e');
    assert("entity_id"@[0] == 'e');
    assert("reasoning"@[0] == 'r');
    reveal_with_fuel(meaning::filled, 6);
}

/// The lines about an entity are those that were logged for it.
pub proof fn decisions_are_those_about_the_entity(db: Database, entity_type: Seq<char>, entity_id: Seq<char>, r: Row)
    ensures
        meaning::query_text(decisions_query()) == SELECT_DECISIONS@,
        meaning::meets_all(db, decisions_query().conditions, ai_log::entity_values(entity_type, entity_id), meaning::alone(r)) <==> r["entity_type"@] == ValueText::Text(entity_type) && r["entity_id"@] == ValueText::Text(entity_id),
{
    lemma_decisions_query_text();
    let q = decisions_query();
    meaning::lemma_alone(r, "entity_type"@);
    meaning::lemma_alone(r, "entity_id"@);
    meaning::lemma_two_conditions(db, q.conditions[0], q.conditions[1], ai_log::entity_values(entity_type, entity_id), meaning::alone(r));
    assert(q.conditions =~= seq![q.conditions[0], q.conditions[1]]);
}

/// The lines about an entity come oldest first, and all of them come.
pub proof fn decisions_come_oldest_first(
    db: Database,
    params: Seq<ValueText>,
    all: Seq<Found>,
    i: int,
    k: int,
)
    requires
        meaning::lists(db, decisions_query(), params, all),
        0 <= i < k < all.len(),
    ensures
        meaning::query_text(decisions_query()) == SELECT_DECISIONS@,
        !made_before(all[k], all[i], "id"@),
        meaning::given(decisions_query(), params, all) == all,
{
    lemma_decisions_query_text();
    assert(meaning::sorted_so(db, decisions_query().order, all[i], all[k]));
    let c = meaning::column("id"@);
    assert(decisions_query().order[0] == (c, Direction::Up));
    if made_before(all[k], all[i], "id"@) {
        if meaning::value_of(all[i], c) is Text {
            meaning::text_order_is_strict(
                meaning::value_of(all[i], c)->Text_0,
                meaning::value_of(all[k], c)->Text_0,
            );
        }
    }
}

} // verus!
