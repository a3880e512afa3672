//! Stored contacts and threads.
use vstd::prelude::*;

use crate::error::CoreError;
use crate::id;
use crate::id::Uuid;
use crate::store::meaning;
use crate::store::record_laws;
use crate::store::sql;
use crate::store::sql::{
    not_found, optional_value, read_channel, read_id, read_time, statement, text_value, SqlValue,
    Statement, ValueText,
};
use crate::time;
use crate::time::Timestamp;
use crate::types::channel;
use crate::types::message;
use crate::types::{Channel, Contact, ContactIdentity, Thread};

verus! {

// ---------------------------------------------------------------------------
// Contacts
// ---------------------------------------------------------------------------

/// The statement that stores a contact.
pub const INSERT_CONTACT: &'static str =
    "INSERT INTO contacts (id, display_name, vault_ref, created_at, updated_at) VALUES (?1, ?2, ?3, ?4, ?5)";

/// The statement that stores an address of a contact. One that is there
/// already is left.
pub const INSERT_IDENTITY: &'static str =
    "INSERT OR IGNORE INTO contact_identities (contact_id, channel_type, address) VALUES (?1, ?2, ?3)";

/// The values under which a contact is stored, but for its addresses.
pub open spec fn contact_values(c: Contact) -> Seq<ValueText> {
    seq![
        ValueText::Text(id::uuid_text(c.id)),
        ValueText::Text(c.display_name@),
        sql::optional(message::optional_text(c.vault_ref)),
        ValueText::Text(sql::time_text(c.created_at)),
        ValueText::Text(sql::time_text(c.updated_at)),
    ]
}

/// The values under which an address is stored.
pub open spec fn identity_values(contact_id: Uuid, i: ContactIdentity) -> Seq<ValueText> {
    seq![
        ValueText::Text(id::uuid_text(contact_id)),
        ValueText::Text(channel::channel_db_text(i.channel)),
        ValueText::Text(i.address@),
    ]
}

/// The statement that stores an address of a contact.
pub fn add_identity(contact_id: Uuid, i: &ContactIdentity) -> (r: Statement)
    ensures
        sql::says(r, INSERT_IDENTITY@, identity_values(contact_id, *i)),
        r.sql@ == meaning::insert_text(record_laws::identity_insert()),
{
    proof {
        record_laws::lemma_identity_insert_text();
    }
    let params = vec![
        SqlValue::Text(contact_id.text()),
        text_value(i.channel.to_db_str()),
        text_value(i.address.as_str()),
    ];
    proof {
        assert(sql::values(params@) =~= identity_values(contact_id, *i));
    }
    statement(INSERT_IDENTITY, params)
}

/// The statements that store a contact: one for itself, then one for each of
/// its addresses, in order.
pub fn insert_contact(c: &Contact) -> (r: Vec<Statement>)
    ensures
        r@.len() == 1 + c.identities@.len(),
        sql::says(r@[0], INSERT_CONTACT@, contact_values(*c)),
        r@[0].sql@ == meaning::insert_text(record_laws::contact_insert()),
        forall|i: int|
            0 <= i < c.identities@.len() ==> sql::says(
                #[trigger] r@[i + 1],
                INSERT_IDENTITY@,
                identity_values(c.id, c.identities@[i]),
            ),
{
    let params = vec![
        SqlValue::Text(c.id.text()),
        text_value(c.display_name.as_str()),
        optional_value(&c.vault_ref),
        SqlValue::Text(c.created_at.rfc3339()),
        SqlValue::Text(c.updated_at.rfc3339()),
    ];
    proof {
        assert(sql::values(params@) =~= contact_values(*c));
        record_laws::lemma_contact_insert_text();
    }
    let mut r: Vec<Statement> = Vec::new();
    r.push(statement(INSERT_CONTACT, params));
    for k in 0..c.identities.len()
        invariant
            r@.len() == 1 + k,
            sql::says(r@[0], INSERT_CONTACT@, contact_values(*c)),
            forall|i: int|
                0 <= i < k ==> sql::says(
                    #[trigger] r@[i + 1],
                    INSERT_IDENTITY@,
                    identity_values(c.id, c.identities@[i]),
                ),
    {
        let ghost before = r@;
        r.push(add_identity(c.id, &c.identities[k]));
        proof {
            assert forall|i: int| 0 <= i < k + 1 implies sql::says(
                #[trigger] r@[i + 1],
                INSERT_IDENTITY@,
                identity_values(c.id, c.identities@[i]),
            ) by {
                if i < k {
                    assert(r@[i + 1] == before[i + 1]);
                }
            }
        }
    }
    r
}

/// The statement for a contact.
pub fn get_contact(id: Uuid) -> (r: Statement)
    ensures
        sql::says(
            r,
            "SELECT display_name, vault_ref, created_at, updated_at FROM contacts WHERE id = ?1"@,
            seq![ValueText::Text(id::uuid_text(id))],
        ),
        r.sql@ == meaning::query_text(record_laws::contact_query()),
{
    proof {
        record_laws::lemma_contact_query_text();
    }
    let params = vec![SqlValue::Text(id.text())];
    proof {
        assert(sql::values(params@) =~= seq![ValueText::Text(id::uuid_text(id))]);
    }
    statement(
        "SELECT display_name, vault_ref, created_at, updated_at FROM contacts WHERE id = ?1",
        params,
    )
}

/// The statement for the addresses of a contact.
pub fn get_identities(id: Uuid) -> (r: Statement)
    ensures
        sql::says(
            r,
            "SELECT channel_type, address FROM contact_identities WHERE contact_id = ?1"@,
            seq![ValueText::Text(id::uuid_text(id))],
        ),
        r.sql@ == meaning::query_text(record_laws::identities_query()),
{
    proof {
        record_laws::lemma_identities_query_text();
    }
    let params = vec![SqlValue::Text(id.text())];
    proof {
        assert(sql::values(params@) =~= seq![ValueText::Text(id::uuid_text(id))]);
    }
    statement("SELECT channel_type, address FROM contact_identities WHERE contact_id = ?1", params)
}

/// The values by which a contact is asked for.
pub open spec fn address_values(channel: Channel, address: Seq<char>) -> Seq<ValueText> {
    seq![ValueText::Text(channel::channel_db_text(channel)), ValueText::Text(address)]
}

/// The statement for the contact with an address on a channel.
pub fn find_contact_by_address(channel: Channel, address: &str) -> (r: Statement)
    ensures
        sql::says(
            r,
            "SELECT contact_id FROM contact_identities WHERE channel_type = ?1 AND address = ?2"@,
            address_values(channel, address@),
        ),
        r.sql@ == meaning::query_text(record_laws::address_query()),
{
    proof {
        record_laws::lemma_address_query_text();
    }
    let params = vec![text_value(channel.to_db_str()), text_value(address)];
    proof {
        assert(sql::values(params@) =~= address_values(channel, address@));
    }
    statement(
        "SELECT contact_id FROM contact_identities WHERE channel_type = ?1 AND address = ?2",
        params,
    )
}

/// A row of the table of contacts.
#[derive(Debug)]
pub struct ContactRow {
    pub display_name: String,
    pub vault_ref: Option<String>,
    pub created_at: String,
    pub updated_at: String,
}

/// The first address whose channel is none, from `from` on; the length if
/// there is none.
pub open spec fn first_unknown(rows: Seq<(String, String)>, from: int) -> int
    decreases rows.len() - from,
{
    if from >= rows.len() {
        rows.len() as int
    } else if !sql::stores_channel(rows[from].0@) {
        from
    } else {
        first_unknown(rows, from + 1)
    }
}

/// `v` holds the addresses of the rows.
pub open spec fn identities_read(v: Seq<ContactIdentity>, rows: Seq<(String, String)>) -> bool {
    &&& v.len() == rows.len()
    &&& forall|i: int|
        0 <= i < rows.len() ==> channel::channel_db_text((#[trigger] v[i]).channel)
            == rows[i].0@ && v[i].address@ == rows[i].1@
}

/// The addresses that the rows hold; or the error for the first channel among
/// them that is none.
pub fn read_identities(rows: &Vec<(String, String)>) -> (r: Result<
    Vec<ContactIdentity>,
    CoreError,
>)
    ensures
        ({
            let n = first_unknown(rows@, 0);
            if n < rows@.len() {
                r is Err && sql::is_invalid(r->Err_0, sql::unknown_channel(rows@[n].0@))
            } else {
                r is Ok && identities_read(r->Ok_0@, rows@)
            }
        }),
{
    let mut v: Vec<ContactIdentity> = Vec::new();
    for i in 0..rows.len()
        invariant
            v@.len() == i,
            first_unknown(rows@, 0) == first_unknown(rows@, i as int),
            forall|k: int|
                0 <= k < i ==> channel::channel_db_text((#[trigger] v@[k]).channel)
                    == rows@[k].0@ && v@[k].address@ == rows@[k].1@,
    {
        match read_channel(rows[i].0.as_str()) {
            Ok(channel) => {
                v.push(ContactIdentity { channel, address: rows[i].1.clone() });
            },
            Err(e) => {
                return Err(e);
            },
        }
    }
    Ok(v)
}

/// `c` is the contact that the rows hold.
pub open spec fn contact_read(
    c: Contact,
    id: Uuid,
    row: ContactRow,
    identities: Seq<(String, String)>,
) -> bool {
    &&& c.id == id
    &&& c.display_name == row.display_name
    &&& identities_read(c.identities@, identities)
    &&& c.vault_ref == row.vault_ref
    &&& sql::time_is(c.created_at, time::rfc3339_parsed(row.created_at@)->Ok_0)
    &&& sql::time_is(c.updated_at, time::rfc3339_parsed(row.updated_at@)->Ok_0)
}

/// The rows hold `c` as it is stored.
pub open spec fn contact_holds(
    row: ContactRow,
    identities: Seq<(String, String)>,
    c: Contact,
) -> bool {
    &&& row.display_name@ == c.display_name@
    &&& message::optional_text(row.vault_ref) == message::optional_text(c.vault_ref)
    &&& sql::storable_time(c.created_at)
    &&& row.created_at@ == sql::time_text(c.created_at)
    &&& sql::storable_time(c.updated_at)
    &&& row.updated_at@ == sql::time_text(c.updated_at)
    &&& identities.len() == c.identities@.len()
    &&& forall|i: int|
        0 <= i < identities.len() ==> (#[trigger] identities[i]).0@ == channel::channel_db_text(
            c.identities@[i].channel,
        ) && identities[i].1@ == c.identities@[i].address@
}

/// `a` and `b` are the same contact.
pub open spec fn same_contact(a: Contact, b: Contact) -> bool {
    &&& a.id == b.id
    &&& a.display_name@ == b.display_name@
    &&& message::optional_text(a.vault_ref) == message::optional_text(b.vault_ref)
    &&& a.created_at == b.created_at
    &&& a.updated_at == b.updated_at
    &&& a.identities@.len() == b.identities@.len()
    &&& forall|i: int|
        0 <= i < a.identities@.len() ==> (#[trigger] a.identities@[i]).channel
            == b.identities@[i].channel && a.identities@[i].address@ == b.identities@[i].address@
}

/// Rows whose channels are those of contacts can all be read.
proof fn lemma_no_unknown(rows: Seq<(String, String)>, c: Contact, from: int)
    requires
        0 <= from <= rows.len(),
        rows.len() == c.identities@.len(),
        forall|i: int|
            0 <= i < rows.len() ==> (#[trigger] rows[i]).0@ == channel::channel_db_text(
                c.identities@[i].channel,
            ),
    ensures
        first_unknown(rows, from) == rows.len(),
    decreases rows.len() - from,
{
    if from < rows.len() {
        assert(channel::channel_db_text(c.identities@[from].channel) == rows[from].0@);
        lemma_no_unknown(rows, c, from + 1);
    }
}

/// The contact that the rows hold; one that was stored is read as it was. Where
/// its own row could not be read, there
/// is no such contact; else the first thing that cannot be read decides: an
/// address, the time of its making, that of its last change.
pub fn read_contact(
    id: Uuid,
    row: Option<ContactRow>,
    identities: &Vec<(String, String)>,
) -> (r: Result<Contact, CoreError>)
    ensures
        match row {
            None => r is Err && sql::is_not_found(r->Err_0, "contact"@, id::uuid_text(id)),
            Some(row) => {
                let n = first_unknown(identities@, 0);
                if n < identities@.len() {
                    r is Err && sql::is_invalid(
                        r->Err_0,
                        sql::unknown_channel(identities@[n].0@),
                    )
                } else if time::rfc3339_parsed(row.created_at@) is Err {
                    r is Err && sql::is_invalid(
                        r->Err_0,
                        time::rfc3339_parsed(row.created_at@)->Err_0,
                    )
                } else if time::rfc3339_parsed(row.updated_at@) is Err {
                    r is Err && sql::is_invalid(
                        r->Err_0,
                        time::rfc3339_parsed(row.updated_at@)->Err_0,
                    )
                } else {
                    r is Ok && contact_read(r->Ok_0, id, row, identities@)
                }
            },
        },
        forall|c: Contact|
            (row is Some && c.id == id && #[trigger] contact_holds(row->0, identities@, c))
                ==> r is Ok && same_contact(r->Ok_0, c),
{
    let ghost rows = identities@;
    let row = match row {
        Some(row) => row,
        None => {
            let t = id.text();
            return Err(not_found("contact", t.as_str()));
        },
    };
    let ghost given = row;
    let identities = match read_identities(identities) {
        Ok(v) => v,
        Err(e) => {
            proof {
                assert forall|c: Contact| !#[trigger] contact_holds(given, rows, c) by {
                    if contact_holds(given, rows, c) {
                        lemma_no_unknown(rows, c, 0);
                    }
                }
            }
            return Err(e);
        },
    };
    let created_at = match read_time(row.created_at.as_str()) {
        Ok(t) => t,
        Err(e) => {
            proof {
                assert forall|c: Contact| !#[trigger] contact_holds(given, rows, c) by {
                    if contact_holds(given, rows, c) {
                        assert(given.created_at@ == sql::time_text(c.created_at));
                    }
                }
            }
            return Err(e);
        },
    };
    let updated_at = match read_time(row.updated_at.as_str()) {
        Ok(t) => t,
        Err(e) => {
            proof {
                assert forall|c: Contact| !#[trigger] contact_holds(given, rows, c) by {
                    if contact_holds(given, rows, c) {
                        assert(given.updated_at@ == sql::time_text(c.updated_at));
                    }
                }
            }
            return Err(e);
        },
    };
    let contact = Contact {
        id,
        display_name: row.display_name,
        identities,
        vault_ref: row.vault_ref,
        created_at,
        updated_at,
    };
    proof {
        assert forall|c: Contact|
            c.id == id && #[trigger] contact_holds(given, rows, c) implies same_contact(
            contact,
            c,
        ) by {
            assert(given.created_at@ == sql::time_text(c.created_at));
            assert(given.updated_at@ == sql::time_text(c.updated_at));
            assert forall|i: int| 0 <= i < contact.identities@.len() implies (
            #[trigger] contact.identities@[i]).channel == c.identities@[i].channel
                && contact.identities@[i].address@ == c.identities@[i].address@ by {
                assert(rows[i].0@ == channel::channel_db_text(c.identities@[i].channel));
                channel::channel_db_text_is_injective(
                    contact.identities@[i].channel,
                    c.identities@[i].channel,
                );
            }
        }
    }
    Ok(contact)
}

/// The sender of a message: the contact that has the address, or a new one with
/// that address alone.
pub fn find_or_create_contact(
    found: Option<Contact>,
    channel: Channel,
    address: &str,
    name: &str,
    new_id: Uuid,
    now: Timestamp,
) -> (r: (Contact, bool))
    ensures
        r.1 == (found is None),
        match found {
            Some(c) => r.0 == c,
            None => {
                &&& r.0.id == new_id
                &&& r.0.display_name@ == name@
                &&& r.0.identities@.len() == 1
                &&& r.0.identities@[0].channel == channel
                &&& r.0.identities@[0].address@ == address@
                &&& r.0.vault_ref is None
                &&& r.0.created_at == now
                &&& r.0.updated_at == now
            },
        },
{
    match found {
        Some(c) => (c, false),
        None => {
            let mut identities: Vec<ContactIdentity> = Vec::new();
            identities.push(ContactIdentity { channel, address: address.to_owned() });
            (
                Contact {
                    id: new_id,
                    display_name: name.to_owned(),
                    identities,
                    vault_ref: None,
                    created_at: now,
                    updated_at: now,
                },
                true,
            )
        },
    }
}

// ---------------------------------------------------------------------------
// Threads
// ---------------------------------------------------------------------------

/// The statement that stores a thread.
pub const INSERT_THREAD: &'static str =
    "INSERT INTO threads (id, channel_type, subject, message_count, last_message_at, created_at, external_thread_id) VALUES (?1, ?2, ?3, ?4, ?5, ?6, ?7)";

/// The statement for the thread that a service knows under an identifier.
pub const SELECT_THREAD: &'static str =
    "SELECT id, channel_type, subject, message_count, last_message_at, created_at, external_thread_id FROM threads WHERE channel_type = ?1 AND external_thread_id = ?2";

/// The values under which a thread is stored.
pub open spec fn thread_values(t: Thread) -> Seq<ValueText> {
    seq![
        ValueText::Text(id::uuid_text(t.id)),
        ValueText::Text(channel::channel_db_text(t.channel)),
        sql::optional(message::optional_text(t.subject)),
        ValueText::Integer(t.message_count as int),
        ValueText::Text(sql::time_text(t.last_message_at)),
        ValueText::Text(sql::time_text(t.created_at)),
        sql::optional(message::optional_text(t.external_thread_id)),
    ]
}

/// The statement that stores a thread.
pub fn insert_thread(t: &Thread) -> (r: Statement)
    ensures
        sql::says(r, INSERT_THREAD@, thread_values(*t)),
        r.sql@ == meaning::insert_text(record_laws::thread_insert()),
{
    proof {
        record_laws::lemma_thread_insert_text();
    }
    let params = vec![
        SqlValue::Text(t.id.text()),
        text_value(t.channel.to_db_str()),
        optional_value(&t.subject),
        SqlValue::Integer(t.message_count as i64),
        SqlValue::Text(t.last_message_at.rfc3339()),
        SqlValue::Text(t.created_at.rfc3339()),
        optional_value(&t.external_thread_id),
    ];
    proof {
        assert(sql::values(params@) =~= thread_values(*t));
    }
    statement(INSERT_THREAD, params)
}

/// The values by which a thread is asked for.
pub open spec fn thread_key(channel: Channel, external_id: Seq<char>) -> Seq<ValueText> {
    seq![
        ValueText::Text(channel::channel_db_text(channel)),
        ValueText::Text(external_id),
    ]
}

/// The stored thread is one that is asked for by these values: `SELECT_THREAD`
/// compares them with the channel and the external identifier that
/// `INSERT_THREAD` has set.
pub open spec fn has_key(t: Thread, key: Seq<ValueText>) -> bool {
    thread_values(t)[1] == key[0] && thread_values(t)[6] == key[1]
}

/// The statement for the thread that a service knows under an identifier.
pub fn find_thread_by_external_id(channel: Channel, external_id: &str) -> (r: Statement)
    ensures
        sql::says(r, SELECT_THREAD@, thread_key(channel, external_id@)),
        r.sql@ == meaning::query_text(record_laws::thread_query()),
{
    proof {
        record_laws::lemma_thread_query_text();
    }
    let params = vec![text_value(channel.to_db_str()), text_value(external_id)];
    proof {
        assert(sql::values(params@) =~= thread_key(channel, external_id@));
    }
    statement(SELECT_THREAD, params)
}

/// A row of the table of threads.
#[derive(Debug)]
pub struct ThreadRow {
    pub id: String,
    pub channel: String,
    pub subject: Option<String>,
    pub message_count: u32,
    pub last_message_at: String,
    pub created_at: String,
    pub external_thread_id: Option<String>,
}

/// The row holds `t` as it is stored.
pub open spec fn thread_holds(row: ThreadRow, t: Thread) -> bool {
    &&& row.id@ == id::uuid_text(t.id)
    &&& row.channel@ == channel::channel_db_text(t.channel)
    &&& row.subject == t.subject
    &&& row.message_count == t.message_count
    &&& sql::storable_time(t.last_message_at)
    &&& row.last_message_at@ == sql::time_text(t.last_message_at)
    &&& sql::storable_time(t.created_at)
    &&& row.created_at@ == sql::time_text(t.created_at)
    &&& row.external_thread_id == t.external_thread_id
}

/// `a` and `b` are the same thread, but for its participants.
pub open spec fn same_thread(a: Thread, b: Thread) -> bool {
    &&& a.id == b.id
    &&& a.channel == b.channel
    &&& a.subject == b.subject
    &&& a.message_count == b.message_count
    &&& a.last_message_at == b.last_message_at
    &&& a.created_at == b.created_at
    &&& a.external_thread_id == b.external_thread_id
}

/// The thread that a row holds, whose participants are not stored with it. One
/// that was stored is read as it was.
pub fn row_to_thread(row: ThreadRow) -> (r: Result<Thread, CoreError>)
    ensures
        if !sql::stores_channel(row.channel@) {
            r is Err && sql::is_invalid(r->Err_0, sql::unknown_channel(row.channel@))
        } else if id::uuid_parsed(row.id@) is Err {
            r is Err && sql::is_invalid(r->Err_0, id::uuid_parsed(row.id@)->Err_0)
        } else if time::rfc3339_parsed(row.last_message_at@) is Err {
            r is Err && sql::is_invalid(
                r->Err_0,
                time::rfc3339_parsed(row.last_message_at@)->Err_0,
            )
        } else if time::rfc3339_parsed(row.created_at@) is Err {
            r is Err && sql::is_invalid(
                r->Err_0,
                time::rfc3339_parsed(row.created_at@)->Err_0,
            )
        } else {
            &&& r is Ok
            &&& r->Ok_0.id.bits == id::uuid_parsed(row.id@)->Ok_0
            &&& channel::channel_db_text(r->Ok_0.channel) == row.channel@
            &&& r->Ok_0.subject == row.subject
            &&& r->Ok_0.participant_ids@.len() == 0
            &&& r->Ok_0.message_count == row.message_count
            &&& sql::time_is(
                r->Ok_0.last_message_at,
                time::rfc3339_parsed(row.last_message_at@)->Ok_0,
            )
            &&& sql::time_is(
                r->Ok_0.created_at,
                time::rfc3339_parsed(row.created_at@)->Ok_0,
            )
            &&& r->Ok_0.external_thread_id == row.external_thread_id
        },
        forall|t: Thread| #[trigger]
            thread_holds(row, t) ==> r is Ok && same_thread(r->Ok_0, t),
{
    let ghost given = row;
    let channel = match read_channel(row.channel.as_str()) {
        Ok(c) => c,
        Err(e) => {
            proof {
                assert forall|t: Thread| !#[trigger] thread_holds(given, t) by {
                    if thread_holds(given, t) {
                        assert(channel::channel_db_text(t.channel) == given.channel@);
                    }
                }
            }
            return Err(e);
        },
    };
    let id = match read_id(row.id.as_str()) {
        Ok(x) => x,
        Err(e) => {
            proof {
                assert forall|t: Thread| !#[trigger] thread_holds(given, t) by {
                    if thread_holds(given, t) {
                        assert(given.id@ == id::uuid_text(t.id));
                    }
                }
            }
            return Err(e);
        },
    };
    let last_message_at = match read_time(row.last_message_at.as_str()) {
        Ok(t) => t,
        Err(e) => {
            proof {
                assert forall|t: Thread| !#[trigger] thread_holds(given, t) by {
                    if thread_holds(given, t) {
                        assert(given.last_message_at@ == sql::time_text(t.last_message_at));
                    }
                }
            }
            return Err(e);
        },
    };
    let created_at = match read_time(row.created_at.as_str()) {
        Ok(t) => t,
        Err(e) => {
            proof {
                assert forall|t: Thread| !#[trigger] thread_holds(given, t) by {
                    if thread_holds(given, t) {
                        assert(given.created_at@ == sql::time_text(t.created_at));
                    }
                }
            }
            return Err(e);
        },
    };
    let thread = Thread {
        id,
        channel,
        subject: row.subject,
        participant_ids: Vec::new(),
        message_count: row.message_count,
        last_message_at,
        created_at,
        external_thread_id: row.external_thread_id,
    };
    proof {
        assert forall|t: Thread| #[trigger] thread_holds(given, t) implies same_thread(
            thread,
            t,
        ) by {
            assert(channel::channel_db_text(t.channel) == given.channel@);
            assert(given.id@ == id::uuid_text(t.id));
            assert(given.last_message_at@ == sql::time_text(t.last_message_at));
            assert(given.created_at@ == sql::time_text(t.created_at));
        }
    }
    Ok(thread)
}

} // verus!
