use messagehub_core::adapters::RawMessage;
use messagehub_core::ai::pipeline::LogEntry;
use messagehub_core::error::CoreError;
use messagehub_core::id::Uuid;
use messagehub_core::knowledge::parser::{parse_markdown_file, ParsedFile, Section};
use messagehub_core::knowledge::people::extract_person;
use messagehub_core::runtime::events::RuntimeEvent;
use messagehub_core::runtime::ingestor::{
    after_ingest, ingest_message, resolve_thread, ThreadChoice,
};
use messagehub_core::runtime::status::ChannelStatus;
use messagehub_core::store::sql::{
    found_or_error, found_or_none, transaction_end, Lookup, SqlValue, Statement, TransactionEnd,
};
use messagehub_core::store::{
    ai_log, channels, contacts, drafts, knowledge, messages, migrations, reply_drafts,
};
use messagehub_core::text_map::TextMap;
use messagehub_core::time::Timestamp;
use messagehub_core::types::{
    Attachment, Channel, ChannelConfig, Contact, ContactIdentity, Message, MessageContent,
    PriorityScore, Thread,
};

const SCHEMA: &str = "
CREATE TABLE channels (id TEXT PRIMARY KEY, channel_type TEXT, label TEXT, keychain_ref TEXT,
    enabled INTEGER, poll_interval_secs INTEGER, last_sync_cursor TEXT, last_sync_at TEXT,
    status TEXT, last_error TEXT, consecutive_failures INTEGER, updated_at TEXT);
CREATE TABLE messages (id TEXT PRIMARY KEY, channel_type TEXT, thread_id TEXT, sender_id TEXT,
    content_text TEXT, content_html TEXT, content_subject TEXT, attachments_json TEXT,
    timestamp TEXT, metadata_json TEXT, priority_score INTEGER, category TEXT,
    is_read INTEGER, is_archived INTEGER, external_id TEXT, received_on_channel_id TEXT);
CREATE UNIQUE INDEX messages_external ON messages(channel_type, external_id)
    WHERE external_id IS NOT NULL;
CREATE TABLE contacts (id TEXT PRIMARY KEY, display_name TEXT, vault_ref TEXT,
    created_at TEXT, updated_at TEXT);
CREATE TABLE contact_identities (contact_id TEXT, channel_type TEXT, address TEXT,
    PRIMARY KEY (channel_type, address));
CREATE TABLE threads (id TEXT PRIMARY KEY, channel_type TEXT, subject TEXT,
    message_count INTEGER, last_message_at TEXT, created_at TEXT, external_thread_id TEXT);
CREATE TABLE reply_drafts (thread_id TEXT PRIMARY KEY, in_reply_to_message_id TEXT, body TEXT,
    subject TEXT, updated_at TEXT);
CREATE TABLE ai_drafts (id TEXT PRIMARY KEY, message_id TEXT, action_type TEXT,
    input_redacted TEXT, output TEXT, user_edited_output TEXT, confidence REAL, provider TEXT,
    model TEXT, created_at TEXT NOT NULL DEFAULT 'now');
CREATE TABLE action_log (id INTEGER PRIMARY KEY AUTOINCREMENT, action_type TEXT,
    entity_type TEXT, entity_id TEXT, reasoning TEXT, confidence_score REAL,
    created_at TEXT NOT NULL DEFAULT 'now');
";

fn open() -> rusqlite::Connection {
    let conn = rusqlite::Connection::open_in_memory().unwrap();
    conn.execute_batch(SCHEMA).unwrap();
    conn
}

fn value(v: &SqlValue) -> rusqlite::types::Value {
    match v {
        SqlValue::Null => rusqlite::types::Value::Null,
        SqlValue::Integer(n) => rusqlite::types::Value::Integer(*n),
        SqlValue::Real(bits) => rusqlite::types::Value::Real(f64::from_bits(*bits)),
        SqlValue::Text(s) => rusqlite::types::Value::Text(s.clone()),
        SqlValue::Blob(b) => rusqlite::types::Value::Blob(b.clone()),
    }
}

fn run(conn: &rusqlite::Connection, s: &Statement) -> usize {
    let values: Vec<rusqlite::types::Value> = s.params.iter().map(value).collect();
    conn.execute(&s.sql, rusqlite::params_from_iter(values)).unwrap()
}

fn column<T: rusqlite::types::FromSql>(row: &rusqlite::Row<'_>, i: usize) -> T {
    row.get(i).unwrap()
}

fn query<T>(
    conn: &rusqlite::Connection,
    s: &Statement,
    read: impl Fn(&rusqlite::Row<'_>) -> T,
) -> Vec<T> {
    let values: Vec<rusqlite::types::Value> = s.params.iter().map(value).collect();
    let mut stmt = conn.prepare(&s.sql).unwrap();
    let rows = stmt.query_map(rusqlite::params_from_iter(values), |row| Ok(read(row))).unwrap();
    rows.map(|r| r.unwrap()).collect()
}

fn time(secs: i64) -> Timestamp {
    Timestamp::new(secs, 0).unwrap()
}

fn channel_row(row: &rusqlite::Row<'_>) -> channels::ChannelRow {
    channels::ChannelRow {
        id: column(row, 0),
        channel: column(row, 1),
        label: column(row, 2),
        keychain_ref: column(row, 3),
        enabled: column(row, 4),
        poll_interval_secs: column(row, 5),
        last_sync_cursor: column(row, 6),
        last_sync_at: column(row, 7),
        status: column(row, 8),
        last_error: column(row, 9),
        consecutive_failures: column(row, 10),
    }
}

fn list_channels(conn: &rusqlite::Connection) -> Vec<ChannelConfig> {
    let s = Statement { sql: channels::SELECT_CHANNELS.to_string(), params: vec![] };
    channels::list_channel_configs(&query(conn, &s, channel_row)).unwrap()
}

fn channel(id: Uuid) -> ChannelConfig {
    ChannelConfig {
        id,
        channel: Channel::Telegram,
        label: "t".to_string(),
        keychain_ref: "ref".to_string(),
        enabled: true,
        poll_interval_secs: 30,
        last_sync_cursor: None,
        last_sync_at: None,
        status: ChannelStatus::Healthy,
        last_error: None,
        consecutive_failures: 0,
    }
}

// --- channels ---

#[test]
fn test_update_channel_status_persists_and_reloads() {
    let conn = open();
    let id = Uuid::random();
    run(&conn, &channels::insert_channel_config(&channel(id)));
    let failed = ChannelStatus::Failed { last_error: "boom".to_string() };
    let rows = run(&conn, &channels::update_channel_status(id, &failed, 3));
    channels::check_updated(rows, id).unwrap();
    let cfgs = list_channels(&conn);
    let cfg = cfgs.iter().find(|c| c.id == id).unwrap();
    assert!(cfg.status.same(&ChannelStatus::Failed { last_error: "boom".to_string() }));
    assert_eq!(cfg.last_error.as_deref(), Some("boom"));
    assert_eq!(cfg.consecutive_failures, 3);
}

#[test]
fn test_update_channel_status_unknown_id_errors() {
    let conn = open();
    let id = Uuid::random();
    let rows = run(&conn, &channels::update_channel_status(id, &ChannelStatus::Healthy, 0));
    let result = channels::check_updated(rows, id);
    assert!(result.is_err(), "update on unknown id must return Err");
}

#[test]
fn the_sync_state_is_stored() {
    let conn = open();
    let id = Uuid { bits: 9 };
    run(&conn, &channels::insert_channel_config(&channel(id)));
    let cursor = Some("41".to_string());
    run(&conn, &channels::update_sync_state(id, &cursor, time(1_700_000_000)));
    let cfg = &list_channels(&conn)[0];
    assert_eq!(cfg.last_sync_cursor.as_deref(), Some("41"));
    assert_eq!(cfg.last_sync_at, Some(time(1_700_000_000)));
    assert_eq!(cfg.id, id);
    assert!(cfg.enabled);
    assert_eq!(cfg.poll_interval_secs, 30);
}

fn status_of(s: &str, error: Option<&str>, failures: u32) -> Result<ChannelStatus, CoreError> {
    channels::read_status(s, &error.map(|e| e.to_string()), failures)
}

#[test]
fn a_status_is_read_from_its_columns() {
    assert!(status_of("healthy", None, 0).unwrap().same(&ChannelStatus::Healthy));
    let degraded = status_of("degraded", None, 2).unwrap();
    assert!(degraded.same(&ChannelStatus::Degraded { attempt: 2 }));
    let failed = status_of("failed", None, 9).unwrap();
    assert!(failed.same(&ChannelStatus::Failed { last_error: String::new() }));
    assert!(status_of("degraded", None, 0)
        .unwrap_err()
        .message()
        .contains("channel row is 'degraded' but consecutive_failures = 0"));
    assert_eq!(
        status_of("ill", None, 0).unwrap_err().message(),
        "invalid input: unknown channel status: ill"
    );
}

#[test]
fn a_channel_row_that_cannot_be_read() {
    let row = || channels::ChannelRow {
        id: "00000000-0000-0000-0000-000000000001".to_string(),
        channel: "Email".to_string(),
        label: String::new(),
        keychain_ref: String::new(),
        enabled: 1,
        poll_interval_secs: 1,
        last_sync_cursor: None,
        last_sync_at: None,
        status: "healthy".to_string(),
        last_error: None,
        consecutive_failures: 0,
    };
    assert_eq!(channels::row_to_channel(&row()).unwrap().id, Uuid { bits: 1 });
    let mut bad = row();
    bad.channel = "Fax".to_string();
    assert_eq!(
        channels::row_to_channel(&bad).unwrap_err().message(),
        "invalid input: unknown channel: Fax"
    );
    let mut bad = row();
    bad.last_sync_at = Some("yesterday".to_string());
    assert!(matches!(channels::row_to_channel(&bad), Err(CoreError::InvalidInput(_))));
    let mut bad = row();
    bad.id = "x".to_string();
    assert!(matches!(channels::row_to_channel(&bad), Err(CoreError::InvalidInput(_))));
}

// --- messages ---

fn message(id: u128, text: &str) -> Message {
    Message {
        id: Uuid { bits: id },
        channel: Channel::Telegram,
        thread_id: Uuid { bits: 2 },
        sender_id: Uuid { bits: 3 },
        content: MessageContent {
            text: Some(text.to_string()),
            html: None,
            subject: None,
            attachments: vec![],
        },
        timestamp: Timestamp::new(1_700_000_000, 123_000_000).unwrap(),
        metadata: TextMap::from_pairs(vec![
            ("z \"quoted\"".to_string(), "é\n".to_string()),
            ("a".to_string(), "1".to_string()),
        ]),
        priority: None,
        category: None,
        is_read: false,
        is_archived: false,
        external_id: None,
        received_on_channel_id: Some(Uuid { bits: 4 }),
    }
}

fn message_row(row: &rusqlite::Row<'_>) -> messages::MessageRow {
    messages::MessageRow {
        id: column(row, 0),
        channel: column(row, 1),
        thread_id: column(row, 2),
        sender_id: column(row, 3),
        text: column(row, 4),
        html: column(row, 5),
        subject: column(row, 6),
        attachments: Vec::new(),
        timestamp: column(row, 8),
        metadata_json: column(row, 9),
        priority: column(row, 10),
        category: column(row, 11),
        is_read: column(row, 12),
        is_archived: column(row, 13),
        external_id: column(row, 14),
        received_on_channel_id: column(row, 15),
    }
}

fn insert(conn: &rusqlite::Connection, m: &Message) {
    run(conn, &messages::insert_message(m, "[]").unwrap());
}

fn select(conn: &rusqlite::Connection, s: &Statement) -> Vec<Message> {
    query(conn, s, message_row)
        .into_iter()
        .map(|r| messages::row_to_message(r).unwrap())
        .collect()
}

fn load(conn: &rusqlite::Connection, id: u128) -> Message {
    select(conn, &messages::get_message(Uuid { bits: id })).remove(0)
}

#[test]
fn test_set_message_classification_updates_row() {
    let conn = open();
    let msg = message(1, "Hi");
    insert(&conn, &msg);
    run(
        &conn,
        &messages::set_message_classification(
            msg.id,
            &Some("work".to_string()),
            Some(PriorityScore::new(4).unwrap()),
        ),
    );
    let reloaded = load(&conn, 1);
    assert_eq!(reloaded.category.as_deref(), Some("work"));
    assert_eq!(reloaded.priority, Some(PriorityScore::new(4).unwrap()));
}

#[test]
fn a_stored_message_is_read_as_it_was() {
    let conn = open();
    let m = message(1, "Hi");
    insert(&conn, &m);
    let got = load(&conn, 1);
    assert_eq!(got.id, m.id);
    assert_eq!(got.channel, m.channel);
    assert_eq!(got.thread_id, m.thread_id);
    assert_eq!(got.sender_id, m.sender_id);
    assert_eq!(got.content.text, m.content.text);
    assert_eq!(got.timestamp, m.timestamp);
    assert_eq!(got.metadata.len(), 2);
    assert_eq!(got.metadata.get("z \"quoted\""), Some("é\n"));
    assert_eq!(got.metadata.get("a"), Some("1"));
    assert_eq!(got.received_on_channel_id, m.received_on_channel_id);
    assert!(!got.is_read);
}

#[test]
fn a_message_of_the_service_is_stored_once() {
    let conn = open();
    let mut first = message(1, "one");
    first.external_id = Some("x".to_string());
    let mut again = message(2, "two");
    again.external_id = Some("x".to_string());
    insert(&conn, &first);
    insert(&conn, &again);
    let s = messages::list_messages(&messages::MessageFilter::default(), 10, 0);
    let found = select(&conn, &s);
    assert_eq!(found.len(), 1);
    assert_eq!(found[0].content.text.as_deref(), Some("one"));
}

#[test]
fn messages_are_filtered() {
    let conn = open();
    let mut a = message(1, "a");
    a.priority = PriorityScore::new(5);
    let mut b = message(2, "b");
    b.is_read = true;
    b.channel = Channel::Email;
    let mut c = message(3, "c");
    c.is_archived = true;
    insert(&conn, &a);
    insert(&conn, &b);
    insert(&conn, &c);
    let filter = |channel, unread_only, min_priority, archived| messages::MessageFilter {
        channel,
        unread_only,
        min_priority,
        archived,
    };
    let texts = |f: &messages::MessageFilter| {
        let mut v: Vec<String> = select(&conn, &messages::list_messages(f, 10, 0))
            .into_iter()
            .map(|m| m.content.text.unwrap())
            .collect();
        v.sort();
        v
    };
    assert_eq!(texts(&filter(None, false, None, false)), vec!["a", "b"]);
    assert_eq!(texts(&filter(None, true, None, false)), vec!["a"]);
    assert_eq!(texts(&filter(Some(Channel::Email), false, None, false)), vec!["b"]);
    assert_eq!(texts(&filter(None, false, Some(5), false)), vec!["a"]);
    assert_eq!(texts(&filter(Some(Channel::Email), true, Some(1), false)).len(), 0);
    assert_eq!(texts(&filter(None, false, None, true)), vec!["c"]);
    let all = filter(Some(Channel::Telegram), true, Some(2), false);
    let (sql, params) = messages::build_where_clause(&all);
    assert_eq!(
        sql,
        " WHERE is_archived = ?1 AND channel_type = ?2 AND is_read = 0 \
         AND priority_score IS NOT NULL AND priority_score >= ?3"
    );
    assert_eq!(params.len(), 3);
    let n: Vec<i64> =
        query(&conn, &messages::count_messages(&filter(None, false, None, false)), |r| column(r, 0));
    assert_eq!(n, vec![2]);
    assert_eq!(
        select(&conn, &messages::list_messages(&filter(None, false, None, false), 1, 1)).len(),
        1
    );
}

#[test]
fn a_thread_is_read_from_its_start() {
    let conn = open();
    let mut late = message(1, "late");
    late.timestamp = time(200);
    let mut early = message(2, "early");
    early.timestamp = time(100);
    insert(&conn, &late);
    insert(&conn, &early);
    let found = select(&conn, &messages::list_messages_in_thread(Uuid { bits: 2 }, 1));
    assert_eq!(found.len(), 1);
    assert_eq!(found[0].content.text.as_deref(), Some("early"));
}

#[test]
fn messages_are_marked() {
    let conn = open();
    insert(&conn, &message(1, "x"));
    let id = Uuid { bits: 1 };
    messages::check_marked(run(&conn, &messages::mark_read(id, true)), id).unwrap();
    assert!(load(&conn, 1).is_read);
    let lost = Uuid { bits: 7 };
    let err = messages::check_marked(run(&conn, &messages::mark_read(lost, true)), lost);
    assert_eq!(
        err.unwrap_err().message(),
        "not found: message with id 00000000-0000-0000-0000-000000000007"
    );
}

#[test]
fn a_query_is_one_phrase() {
    assert_eq!(messages::quote_phrase("a \"b\" c"), "\"a \"\"b\"\" c\"");
    let s = messages::search_messages("hi", 3);
    match &s.params[0] {
        SqlValue::Text(t) => assert_eq!(t, "\"hi\""),
        other => panic!("not a text: {:?}", other),
    }
    assert!(s.sql.contains("MATCH"));
}

#[test]
fn a_message_row_that_cannot_be_read() {
    let row = || messages::MessageRow {
        id: "00000000-0000-0000-0000-000000000001".to_string(),
        channel: "Email".to_string(),
        thread_id: "00000000-0000-0000-0000-000000000002".to_string(),
        sender_id: "00000000-0000-0000-0000-000000000003".to_string(),
        text: None,
        html: None,
        subject: None,
        attachments: vec![Attachment {
            filename: "f".to_string(),
            mime_type: "m".to_string(),
            size_bytes: 1,
            local_path: None,
        }],
        timestamp: "1970-01-01T01:00:00+01:00".to_string(),
        metadata_json: Some("not json".to_string()),
        priority: Some(9),
        category: None,
        is_read: 2,
        is_archived: 0,
        external_id: None,
        received_on_channel_id: None,
    };
    let m = messages::row_to_message(row()).unwrap();
    assert_eq!(m.timestamp, time(0));
    assert!(m.metadata.is_empty());
    assert!(m.priority.is_none());
    assert!(m.is_read);
    assert_eq!(m.content.attachments[0].filename, "f");
    let mut bad = row();
    bad.channel = "Fax".to_string();
    assert_eq!(
        messages::row_to_message(bad).unwrap_err().message(),
        "invalid input: unknown channel: Fax"
    );
    let mut bad = row();
    bad.sender_id = "3".to_string();
    assert!(matches!(messages::row_to_message(bad), Err(CoreError::InvalidInput(_))));
    let mut bad = row();
    bad.timestamp = "now".to_string();
    assert!(matches!(messages::row_to_message(bad), Err(CoreError::InvalidInput(_))));
    let mut bad = row();
    bad.received_on_channel_id = Some("x".to_string());
    assert!(matches!(messages::row_to_message(bad), Err(CoreError::InvalidInput(_))));
}

// --- contacts and threads ---

fn person() -> Contact {
    Contact {
        id: Uuid { bits: 5 },
        display_name: "Ada".to_string(),
        identities: vec![
            ContactIdentity { channel: Channel::Email, address: "ada@example.com".to_string() },
            ContactIdentity { channel: Channel::Telegram, address: "@ada".to_string() },
        ],
        vault_ref: None,
        created_at: time(1),
        updated_at: time(2),
    }
}

#[test]
fn a_contact_is_stored_with_its_identities() {
    let conn = open();
    for s in contacts::insert_contact(&person()) {
        run(&conn, &s);
    }
    let found: Vec<String> = query(
        &conn,
        &contacts::find_contact_by_address(Channel::Telegram, "@ada"),
        |r| column(r, 0),
    );
    assert_eq!(found, vec!["00000000-0000-0000-0000-000000000005"]);
    let id = Uuid { bits: 5 };
    let row = query(&conn, &contacts::get_contact(id), |r| contacts::ContactRow {
        display_name: column(r, 0),
        vault_ref: column(r, 1),
        created_at: column(r, 2),
        updated_at: column(r, 3),
    })
    .pop();
    let identities: Vec<(String, String)> =
        query(&conn, &contacts::get_identities(id), |r| (column(r, 0), column(r, 1)));
    let c = contacts::read_contact(id, row, &identities).unwrap();
    assert_eq!(c.display_name, "Ada");
    assert_eq!(c.identities.len(), 2);
    assert_eq!(c.created_at, time(1));
    assert_eq!(c.address_on(Channel::Telegram).as_deref(), Some("@ada"));
    assert_eq!(c.address_on(Channel::Sms), None);
    assert_eq!(c.address_or_empty(Channel::Sms), "");
}

#[test]
fn a_contact_that_is_not_there() {
    let err = contacts::read_contact(Uuid { bits: 5 }, None, &vec![]).unwrap_err();
    assert_eq!(
        err.message(),
        "not found: contact with id 00000000-0000-0000-0000-000000000005"
    );
    let bad = contacts::read_identities(&vec![("Fax".to_string(), "1".to_string())]);
    assert_eq!(bad.unwrap_err().message(), "invalid input: unknown channel: Fax");
}

#[test]
fn a_sender_is_found_or_created() {
    let (known, new) = contacts::find_or_create_contact(
        Some(person()),
        Channel::Email,
        "ada@example.com",
        "A",
        Uuid { bits: 6 },
        time(9),
    );
    assert!(!new);
    assert_eq!(known.id, Uuid { bits: 5 });
    let (made, new) = contacts::find_or_create_contact(
        None,
        Channel::Email,
        "bob@example.com",
        "Bob",
        Uuid { bits: 6 },
        time(9),
    );
    assert!(new);
    assert_eq!(made.id, Uuid { bits: 6 });
    assert_eq!(made.display_name, "Bob");
    assert_eq!(made.identities[0].address, "bob@example.com");
    assert_eq!(made.created_at, time(9));
}

fn thread_row(r: &rusqlite::Row<'_>) -> contacts::ThreadRow {
    contacts::ThreadRow {
        id: column(r, 0),
        channel: column(r, 1),
        subject: column(r, 2),
        message_count: column(r, 3),
        last_message_at: column(r, 4),
        created_at: column(r, 5),
        external_thread_id: column(r, 6),
    }
}

#[test]
fn a_thread_is_stored_and_found() {
    let conn = open();
    let t = Thread {
        id: Uuid { bits: 8 },
        channel: Channel::Telegram,
        subject: Some("S".to_string()),
        participant_ids: vec![],
        message_count: 2,
        last_message_at: time(5),
        created_at: time(4),
        external_thread_id: Some("chat-1".to_string()),
    };
    run(&conn, &contacts::insert_thread(&t));
    let s = contacts::find_thread_by_external_id(Channel::Telegram, "chat-1");
    let row = query(&conn, &s, thread_row).pop().unwrap();
    let got = contacts::row_to_thread(row).unwrap();
    assert_eq!(got.id, t.id);
    assert_eq!(got.subject.as_deref(), Some("S"));
    assert_eq!(got.message_count, 2);
    assert_eq!(got.last_message_at, time(5));
    assert_eq!(got.external_thread_id.as_deref(), Some("chat-1"));
}

// --- ingesting ---

fn raw(ext_thread: Option<&str>, sender: &str) -> RawMessage {
    RawMessage {
        external_id: Uuid::random().text(),
        channel: Channel::Telegram,
        external_thread_id: ext_thread.map(|s| s.to_string()),
        sender_name: sender.to_string(),
        sender_address: sender.to_string(),
        text: Some("hi".to_string()),
        html: None,
        subject: None,
        attachments: vec![],
        timestamp: time(50),
        metadata: TextMap::new(),
    }
}

/// Takes a message in: finds or makes its sender and thread, and stores it.
fn ingest(conn: &rusqlite::Connection, raw: RawMessage, channel_id: Uuid) -> Uuid {
    let found: Vec<String> = query(
        conn,
        &contacts::find_contact_by_address(raw.channel, &raw.sender_address),
        |r| column(r, 0),
    );
    let sender_id = match found.first() {
        Some(id) => Uuid::parse(id).unwrap(),
        None => {
            let (contact, _) = contacts::find_or_create_contact(
                None,
                raw.channel,
                &raw.sender_address,
                &raw.sender_name,
                Uuid::random(),
                time(60),
            );
            for s in contacts::insert_contact(&contact) {
                run(conn, &s);
            }
            contact.id
        }
    };
    let known = raw.external_thread_id.as_deref().and_then(|e| {
        query(conn, &contacts::find_thread_by_external_id(raw.channel, e), thread_row)
            .pop()
            .map(|row| contacts::row_to_thread(row).unwrap())
    });
    let thread = match resolve_thread(&raw, known, Uuid::random()) {
        ThreadChoice::Existing(t) => t,
        ThreadChoice::New(t) => {
            run(conn, &contacts::insert_thread(&t));
            t
        }
    };
    let m = ingest_message(raw, sender_id, thread.id, channel_id, Uuid::random());
    insert(conn, &m);
    m.id
}

fn rows_of(conn: &rusqlite::Connection, table: &str) -> i64 {
    conn.query_row(&format!("SELECT COUNT(*) FROM {}", table), [], |r| r.get(0)).unwrap()
}

#[test]
fn ingest_inserts_contact_thread_message() {
    let conn = open();
    let channel_id = Uuid::random();
    run(&conn, &channels::insert_channel_config(&channel(channel_id)));
    let stored_id = ingest(&conn, raw(Some("chat-1"), "alice"), channel_id);
    match after_ingest(Some(stored_id), channel_id, false).event {
        Some(RuntimeEvent::MessageIngested { id, channel_id: got_ch }) => {
            assert_eq!(got_ch, channel_id);
            assert_eq!(id, stored_id);
        }
        other => panic!("unexpected event: {:?}", other),
    }
    let stored = select(&conn, &messages::get_message(stored_id)).remove(0);
    assert_eq!(stored.received_on_channel_id, Some(channel_id));
    assert_eq!(rows_of(&conn, "contacts"), 1);
    assert_eq!(rows_of(&conn, "threads"), 1);
    assert_eq!(rows_of(&conn, "messages"), 1);
}

#[test]
fn same_external_thread_reuses_existing_thread() {
    let conn = open();
    let channel_id = Uuid::random();
    run(&conn, &channels::insert_channel_config(&channel(channel_id)));
    let ids: Vec<Uuid> = vec![raw(Some("chat-same"), "alice"), raw(Some("chat-same"), "bob")]
        .into_iter()
        .map(|r| ingest(&conn, r, channel_id))
        .collect();
    assert_eq!(ids.len(), 2);
    let m1 = select(&conn, &messages::get_message(ids[0])).remove(0);
    let m2 = select(&conn, &messages::get_message(ids[1])).remove(0);
    assert_eq!(m1.thread_id, m2.thread_id, "both messages should land in the same thread");
    assert_ne!(m1.sender_id, m2.sender_id);
    assert_eq!(rows_of(&conn, "threads"), 1);
    ingest(&conn, raw(None, "bob"), channel_id);
    ingest(&conn, raw(None, "bob"), channel_id);
    assert_eq!(rows_of(&conn, "threads"), 3);
    assert_eq!(rows_of(&conn, "contacts"), 2);
}

#[test]
fn a_database_is_kept_encrypted() {
    let conn = rusqlite::Connection::open_in_memory().unwrap();
    let version: String = conn.query_row("PRAGMA cipher_version", [], |r| r.get(0)).unwrap();
    assert!(!version.is_empty());
}

// --- drafts ---

#[test]
fn a_draft_is_stored_and_edited() {
    let conn = open();
    let d = drafts::NewDraft {
        id: Uuid { bits: 1 },
        message_id: Some(Uuid { bits: 2 }),
        action_type: "draft_reply",
        input_redacted: "in",
        output: "out",
        confidence: 0.5f64.to_bits(),
        provider: "anthropic",
        model: "m",
    };
    run(&conn, &drafts::insert_draft(&d));
    let id = Uuid { bits: 1 };
    drafts::check_updated(run(&conn, &drafts::update_draft_output(id, "mine")), id).unwrap();
    let got = query(&conn, &drafts::list_drafts_for_message(Uuid { bits: 2 }), |r| {
        let confidence: f64 = column(r, 6);
        drafts::row_to_draft(drafts::DraftRow {
            id: column(r, 0),
            message_id: column(r, 1),
            action_type: column(r, 2),
            input_redacted: column(r, 3),
            output: column(r, 4),
            user_edited_output: column(r, 5),
            confidence: confidence.to_bits(),
            provider: column(r, 7),
            model: column(r, 8),
            created_at: column(r, 9),
        })
    });
    assert_eq!(got.len(), 1);
    assert_eq!(got[0].id, id);
    assert_eq!(got[0].message_id, Some(Uuid { bits: 2 }));
    assert_eq!(got[0].output, "out");
    assert_eq!(got[0].user_edited_output.as_deref(), Some("mine"));
    assert_eq!(f64::from_bits(got[0].confidence), 0.5);
    let lost = Uuid { bits: 3 };
    let err = drafts::check_updated(run(&conn, &drafts::update_draft_output(lost, "x")), lost);
    assert_eq!(
        err.unwrap_err().message(),
        "not found: ai_draft with id 00000000-0000-0000-0000-000000000003"
    );
}

#[test]
fn a_reply_draft_is_replaced_and_deleted() {
    let conn = open();
    let thread_id = Uuid { bits: 1 };
    let draft = |body| reply_drafts::NewReplyDraft {
        thread_id,
        in_reply_to_message_id: Uuid { bits: 2 },
        body,
        subject: None,
    };
    run(&conn, &reply_drafts::upsert_reply_draft(&draft("one")));
    run(&conn, &reply_drafts::upsert_reply_draft(&draft("two")));
    let read = |r: &rusqlite::Row<'_>| reply_drafts::ReplyDraftRow {
        thread_id: column(r, 0),
        in_reply_to_message_id: column(r, 1),
        body: column(r, 2),
        subject: column(r, 3),
        updated_at: column(r, 4),
    };
    let mut rows = query(&conn, &reply_drafts::get_reply_draft(thread_id), read);
    assert_eq!(rows.len(), 1);
    let got = reply_drafts::row_to_reply_draft(rows.pop().unwrap()).unwrap();
    assert_eq!(got.thread_id, thread_id);
    assert_eq!(got.body, "two");
    run(&conn, &reply_drafts::delete_reply_draft(thread_id));
    assert!(query(&conn, &reply_drafts::get_reply_draft(thread_id), read).is_empty());
    let bad = reply_drafts::ReplyDraftRow {
        thread_id: "00000000-0000-0000-0000-000000000001".to_string(),
        in_reply_to_message_id: "00000000-0000-0000-0000-000000000002".to_string(),
        body: String::new(),
        subject: None,
        updated_at: "soon".to_string(),
    };
    let err = reply_drafts::row_to_reply_draft(bad).unwrap_err().message();
    assert!(err.starts_with("invalid input: bad updated_at 'soon': "));
}

#[test]
fn decisions_are_logged_in_order() {
    let conn = open();
    let entry = |action: &str| LogEntry {
        action_type: action.to_string(),
        entity_type: "message",
        entity_id: "1".to_string(),
        description: "why".to_string(),
    };
    run(&conn, &ai_log::log_ai_decision(&entry("classify_failed"), 0.0f64.to_bits()));
    run(&conn, &ai_log::log_ai_decision(&entry("classify"), 1.0f64.to_bits()));
    let got: Vec<(String, String, f64)> =
        query(&conn, &ai_log::list_ai_decisions_for_entity("message", "1"), |r| {
            (column(r, 1), column(r, 4), column(r, 5))
        });
    assert_eq!(
        got,
        vec![
            ("classify_failed".to_string(), "why".to_string(), 0.0),
            ("classify".to_string(), "why".to_string(), 1.0),
        ]
    );
}

// --- the vault ---

fn file(sections: usize) -> ParsedFile {
    ParsedFile {
        frontmatter: None,
        sections: (0..sections)
            .map(|i| Section {
                heading: Some(format!("H{}", i)),
                content: "c".to_string(),
                level: 1,
                tokens: 1,
            })
            .collect(),
        content_hash: "h".to_string(),
        total_tokens: sections,
    }
}

#[test]
fn every_section_needs_its_embedding() {
    let parsed = file(2);
    let embeddings = vec![vec![1u32]];
    let f = knowledge::IndexedFile {
        path: "a.md",
        mtime_secs: 1,
        para_folder: None,
        parsed: &parsed,
        chunk_embeddings: &embeddings,
        person: None,
    };
    assert_eq!(
        knowledge::check_embeddings(&f).unwrap_err().message(),
        "knowledge error: chunk count mismatch: 2 sections, 1 embeddings"
    );
}

#[test]
fn a_file_is_stored_step_by_step() {
    let parsed = parse_markdown_file("---\nname: Ada\nemail: [a@x, b@x]\n---\none\n# H\ntwo").unwrap();
    let person =
        extract_person("05-People/Ada.md", parsed.frontmatter.as_ref().unwrap()).unwrap().unwrap();
    let embeddings = vec![vec![1u32], vec![2u32]];
    let f = knowledge::IndexedFile {
        path: "05-People/Ada.md",
        mtime_secs: 7,
        para_folder: Some("05-People"),
        parsed: &parsed,
        chunk_embeddings: &embeddings,
        person: Some(&person),
    };
    knowledge::check_embeddings(&f).unwrap();
    let old = vec![11, 12];
    let mut step = knowledge::first_step(&old);
    let mut steps = Vec::new();
    let mut row = 0;
    while step != knowledge::UpsertStep::Done {
        steps.push(knowledge::step_statement(&f, &old, step, row).unwrap());
        if knowledge::keeps_row(step) {
            row += 100;
        }
        step = knowledge::next_step(&f, &old, step);
    }
    let starts: Vec<&str> = steps.iter().map(|s| &s.sql[..24]).collect();
    assert_eq!(
        starts,
        vec![
            "DELETE FROM vault_chunk_",
            "DELETE FROM vault_chunk_",
            "DELETE FROM vault_files ",
            "INSERT INTO vault_files ",
            "INSERT INTO vault_chunks",
            "INSERT INTO vault_chunk_",
            "INSERT INTO vault_chunks",
            "INSERT INTO vault_chunk_",
            "INSERT INTO vault_people",
            "INSERT OR IGNORE INTO va",
            "INSERT OR IGNORE INTO va",
        ]
    );
    assert!(matches!(steps[1].params[0], SqlValue::Integer(12)));
    match &steps[3].params[3] {
        SqlValue::Text(t) => assert_eq!(t, "{\"name\":\"Ada\",\"email\":[\"a@x\",\"b@x\"]}"),
        other => panic!("not a text: {:?}", other),
    }
    assert!(matches!(steps[5].params[0], SqlValue::Integer(100)));
    assert!(matches!(steps[7].params[0], SqlValue::Integer(200)));
    match &steps[8].params[3] {
        SqlValue::Text(t) => assert_eq!(t, "[]"),
        other => panic!("not a text: {:?}", other),
    }
    assert!(matches!(steps[9].params[0], SqlValue::Integer(300)));
    assert!(matches!(steps[10].params[0], SqlValue::Integer(300)));
    match &steps[7].params[1] {
        SqlValue::Blob(b) => assert_eq!(b, &vec![2, 0, 0, 0]),
        other => panic!("not a blob: {:?}", other),
    }
}

#[test]
fn frontmatter_that_is_no_json_stops_the_work() {
    let parsed = parse_markdown_file("---\n? [a]\n: b\n---\n").unwrap();
    let embeddings = vec![];
    let f = knowledge::IndexedFile {
        path: "a.md",
        mtime_secs: 0,
        para_folder: None,
        parsed: &parsed,
        chunk_embeddings: &embeddings,
        person: None,
    };
    let result = knowledge::step_statement(&f, &vec![], knowledge::UpsertStep::InsertFile, 0);
    assert!(matches!(result, Err(CoreError::Serialization(_))));
}

#[test]
fn a_file_is_taken_away_with_its_vectors() {
    let s = knowledge::delete_indexed_file("a.md", &vec![3]);
    assert_eq!(s.len(), 2);
    assert_eq!(s[0].sql, "DELETE FROM vault_chunk_vecs WHERE rowid = ?1");
    assert_eq!(s[1].sql, "DELETE FROM vault_files WHERE path = ?1");
    assert_eq!(
        knowledge::select_chunks("a.md").sql,
        "SELECT id FROM vault_chunks WHERE file_path = ?1"
    );
    assert_eq!(
        knowledge::indexed_content_hash("a.md").sql,
        "SELECT content_hash FROM vault_files WHERE path = ?1"
    );
    assert_eq!(knowledge::find_vault_person_by_address("Email", "x").params.len(), 2);
}

// --- the rest ---

#[test]
fn migrations_are_applied_in_order() {
    assert_eq!(migrations::pending_migrations(0, 3), vec![1, 2, 3]);
    assert_eq!(migrations::pending_migrations(2, 3), vec![3]);
    assert!(migrations::pending_migrations(3, 3).is_empty());
}

#[test]
fn lookups_end_in_three_ways() {
    assert_eq!(found_or_none(Lookup::Found(1)).unwrap(), Some(1));
    assert_eq!(found_or_none::<u8>(Lookup::Missing).unwrap(), None);
    assert_eq!(
        found_or_none::<u8>(Lookup::Failed("x".to_string())).unwrap_err().message(),
        "database error: x"
    );
    assert_eq!(
        found_or_error::<u8>(Lookup::Missing, "message", "7").unwrap_err().message(),
        "not found: message with id 7"
    );
    assert_eq!(transaction_end(true), TransactionEnd::Commit);
    assert_eq!(transaction_end(false), TransactionEnd::Rollback);
}
