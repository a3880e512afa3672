//! Stored channels.
use vstd::prelude::*;

use crate::error::{joined, CoreError};
use crate::id;
use crate::id::Uuid;
use crate::runtime::status;
use crate::runtime::status::{ChannelStatus, StatusText};
use crate::store::meaning;
use crate::store::record_laws;
use crate::store::sql;
use crate::store::sql::{
    flag_value, optional_value, read_channel, read_id, read_time, require_row, statement,
    text_value, RowError, SqlValue, Statement, ValueText,
};
use crate::text::{copy_or_empty, str_eq};
use crate::time;
use crate::time::Timestamp;
use crate::types::channel;
use crate::types::message;
use crate::types::ChannelConfig;

verus! {

/// The statement that stores a channel.
pub const INSERT_CHANNEL: &'static str =
    "INSERT INTO channels (id, channel_type, label, keychain_ref, enabled, poll_interval_secs, last_sync_cursor, last_sync_at, status, last_error, consecutive_failures) VALUES (?1, ?2, ?3, ?4, ?5, ?6, ?7, ?8, ?9, ?10, ?11)";

/// The statement for all channels.
pub const SELECT_CHANNELS: &'static str =
    "SELECT id, channel_type, label, keychain_ref, enabled, poll_interval_secs, last_sync_cursor, last_sync_at, status, last_error, consecutive_failures FROM channels";

/// A point in time as a value, or nothing.
pub open spec fn time_value(o: Option<Timestamp>) -> ValueText {
    match o {
        Some(t) => ValueText::Text(sql::time_text(t)),
        None => ValueText::Null,
    }
}

/// The values under which a channel is stored.
pub open spec fn channel_values(c: ChannelConfig) -> Seq<ValueText> {
    seq![
        ValueText::Text(id::uuid_text(c.id)),
        ValueText::Text(channel::channel_db_text(c.channel)),
        ValueText::Text(c.label@),
        ValueText::Text(c.keychain_ref@),
        sql::flag(c.enabled),
        ValueText::Integer(c.poll_interval_secs as int),
        sql::optional(message::optional_text(c.last_sync_cursor)),
        time_value(c.last_sync_at),
        ValueText::Text(status::status_db_text(c.status@)),
        sql::optional(message::optional_text(c.last_error)),
        ValueText::Integer(c.consecutive_failures as int),
    ]
}

fn write_time(o: &Option<Timestamp>) -> (r: SqlValue)
    ensures
        r@ == time_value(*o),
{
    match o {
        Some(t) => SqlValue::Text(t.rfc3339()),
        None => SqlValue::Null,
    }
}

/// The statement that stores a channel.
pub fn insert_channel_config(c: &ChannelConfig) -> (r: Statement)
    ensures
        sql::says(r, INSERT_CHANNEL@, channel_values(*c)),
        r.sql@ == meaning::insert_text(record_laws::channel_insert()),
{
    proof {
        record_laws::lemma_channel_insert_text();
    }
    let params = vec![
        SqlValue::Text(c.id.text()),
        text_value(c.channel.to_db_str()),
        text_value(c.label.as_str()),
        text_value(c.keychain_ref.as_str()),
        flag_value(c.enabled),
        SqlValue::Integer(c.poll_interval_secs as i64),
        optional_value(&c.last_sync_cursor),
        write_time(&c.last_sync_at),
        text_value(c.status.db_str()),
        optional_value(&c.last_error),
        SqlValue::Integer(c.consecutive_failures as i64),
    ];
    proof {
        assert(sql::values(params@) =~= channel_values(*c));
    }
    statement(INSERT_CHANNEL, params)
}

/// The error that is stored beside a status: that of a failed channel.
pub open spec fn stored_error(s: StatusText) -> Option<Seq<char>> {
    match s {
        StatusText::Failed(e) => Some(e),
        _ => None,
    }
}

/// The values of the statement that stores the status of a channel.
pub open spec fn status_values(id: Uuid, s: StatusText, failures: u32) -> Seq<ValueText> {
    seq![
        ValueText::Text(status::status_db_text(s)),
        sql::optional(stored_error(s)),
        ValueText::Integer(failures as int),
        ValueText::Text(id::uuid_text(id)),
    ]
}

/// The values of the statement that stores up to when a channel was read.
pub open spec fn sync_values(id: Uuid, cursor: Option<String>, synced_at: Timestamp) -> Seq<
    ValueText,
> {
    seq![
        sql::optional(message::optional_text(cursor)),
        ValueText::Text(sql::time_text(synced_at)),
        ValueText::Text(sql::time_text(synced_at)),
        ValueText::Text(id::uuid_text(id)),
    ]
}

/// The statement that stores the status of a channel. The number of failures
/// is that of the status, where it has one.
pub fn update_channel_status(id: Uuid, s: &ChannelStatus, consecutive_failures: u32) -> (r:
    Statement)
    ensures
        sql::says(
            r,
            "UPDATE channels SET status = ?1, last_error = ?2, consecutive_failures = ?3 WHERE id = ?4"@,
            status_values(id, s@, consecutive_failures),
        ),
        r.sql@ == meaning::update_text(record_laws::status_update()),
{
    proof {
        record_laws::lemma_status_update_text();
    }
    let error = match s {
        ChannelStatus::Failed { last_error } => text_value(last_error.as_str()),
        _ => SqlValue::Null,
    };
    let params = vec![
        text_value(s.db_str()),
        error,
        SqlValue::Integer(consecutive_failures as i64),
        SqlValue::Text(id.text()),
    ];
    proof {
        assert(sql::values(params@) =~= status_values(id, s@, consecutive_failures));
    }
    statement(
        "UPDATE channels SET status = ?1, last_error = ?2, consecutive_failures = ?3 WHERE id = ?4",
        params,
    )
}

/// The statement that stores up to when a channel was read.
pub fn update_sync_state(id: Uuid, cursor: &Option<String>, synced_at: Timestamp) -> (r: Statement)
    ensures
        sql::says(
            r,
            "UPDATE channels SET last_sync_cursor = ?1, last_sync_at = ?2, updated_at = ?3 WHERE id = ?4"@,
            sync_values(id, *cursor, synced_at),
        ),
        r.sql@ == meaning::update_text(record_laws::sync_update()),
{
    proof {
        record_laws::lemma_sync_update_text();
    }
    let params = vec![
        optional_value(cursor),
        SqlValue::Text(synced_at.rfc3339()),
        SqlValue::Text(synced_at.rfc3339()),
        SqlValue::Text(id.text()),
    ];
    proof {
        assert(sql::values(params@) =~= sync_values(id, *cursor, synced_at));
    }
    statement(
        "UPDATE channels SET last_sync_cursor = ?1, last_sync_at = ?2, updated_at = ?3 WHERE id = ?4",
        params,
    )
}

/// A channel that is to be changed has to be there.
pub fn check_updated(rows: usize, id: Uuid) -> (r: Result<(), CoreError>)
    ensures
        r is Ok <==> rows > 0,
        r is Err ==> sql::is_not_found(r->Err_0, "channel"@, id::uuid_text(id)),
{
    let t = id.text();
    require_row(rows, "channel", t.as_str())
}

// ---------------------------------------------------------------------------
// Reading
// ---------------------------------------------------------------------------

/// A row of the table of channels.
#[derive(Debug)]
pub struct ChannelRow {
    pub id: String,
    pub channel: String,
    pub label: String,
    pub keychain_ref: String,
    pub enabled: i32,
    pub poll_interval_secs: u32,
    pub last_sync_cursor: Option<String>,
    pub last_sync_at: Option<String>,
    pub status: String,
    pub last_error: Option<String>,
    pub consecutive_failures: u32,
}

/// The message for a degraded channel without failures.
pub open spec fn degraded_without_failures() -> Seq<char> {
    "Invalid parameter name: channel row is 'degraded' but consecutive_failures = 0"@
}

/// The status that is stored by `s`, with this error and this many failures.
pub open spec fn status_read(
    s: Seq<char>,
    last_error: Option<Seq<char>>,
    failures: nat,
) -> Result<StatusText, RowError> {
    if s == "healthy"@ {
        Ok(StatusText::Healthy)
    } else if s == "degraded"@ {
        if failures == 0 {
            Err(RowError::Contradiction(degraded_without_failures()))
        } else {
            Ok(StatusText::Degraded(failures))
        }
    } else if s == "failed"@ {
        Ok(
            StatusText::Failed(
                match last_error {
                    Some(e) => e,
                    None => Seq::empty(),
                },
            ),
        )
    } else {
        Err(RowError::Invalid("unknown channel status: "@ + s))
    }
}

/// The status that is stored by `s`.
pub fn read_status(s: &str, last_error: &Option<String>, failures: u32) -> (r: Result<
    ChannelStatus,
    CoreError,
>)
    ensures
        match status_read(s@, message::optional_text(*last_error), failures as nat) {
            Ok(x) => r is Ok && r->Ok_0@ == x,
            Err(x) => r is Err && sql::is_row_error(r->Err_0, x),
        },
{
    proof {
        lemma_status_texts();
    }
    if str_eq(s, "healthy") {
        Ok(ChannelStatus::Healthy)
    } else if str_eq(s, "degraded") {
        if failures == 0 {
            Err(
                CoreError::Database(
                    "Invalid parameter name: channel row is 'degraded' but consecutive_failures = 0".to_owned(),
                ),
            )
        } else {
            Ok(ChannelStatus::Degraded { attempt: failures })
        }
    } else if str_eq(s, "failed") {
        Ok(ChannelStatus::Failed { last_error: copy_or_empty(last_error) })
    } else {
        Err(CoreError::InvalidInput(joined("unknown channel status: ", s)))
    }
}

/// The texts of the three statuses differ.
proof fn lemma_status_texts()
    ensures
        "healthy"@ != "degraded"@,
        "healthy"@ != "failed"@,
        "degraded"@ != "failed"@,
{
    reveal_strlit("healthy");
    reveal_strlit("degraded");
    reveal_strlit("failed");
    assert("healthy"@.len() == 7 && "degraded"@.len() == 8 && "failed"@.len() == 6);
}

/// The first thing in a row that cannot be read.
pub open spec fn channel_row_error(row: ChannelRow) -> Option<RowError> {
    let s = status_read(
        row.status@,
        message::optional_text(row.last_error),
        row.consecutive_failures as nat,
    );
    if !sql::stores_channel(row.channel@) {
        Some(RowError::Invalid(sql::unknown_channel(row.channel@)))
    } else if row.last_sync_at matches Some(t) && time::rfc3339_parsed(t@) is Err {
        Some(RowError::Invalid(time::rfc3339_parsed(row.last_sync_at->0@)->Err_0))
    } else if s is Err {
        Some(s->Err_0)
    } else if id::uuid_parsed(row.id@) is Err {
        Some(RowError::Invalid(id::uuid_parsed(row.id@)->Err_0))
    } else {
        None
    }
}

/// `c` is what the row holds.
pub open spec fn channel_read(c: ChannelConfig, row: ChannelRow) -> bool {
    &&& c.id.bits == id::uuid_parsed(row.id@)->Ok_0
    &&& channel::channel_db_text(c.channel) == row.channel@
    &&& c.label@ == row.label@
    &&& c.keychain_ref@ == row.keychain_ref@
    &&& c.enabled == (row.enabled != 0)
    &&& c.poll_interval_secs == row.poll_interval_secs
    &&& c.last_sync_cursor == row.last_sync_cursor
    &&& match row.last_sync_at {
        Some(t) => c.last_sync_at matches Some(x) && sql::time_is(
            x,
            time::rfc3339_parsed(t@)->Ok_0,
        ),
        None => c.last_sync_at is None,
    }
    &&& c.status@ == status_read(
        row.status@,
        message::optional_text(row.last_error),
        row.consecutive_failures as nat,
    )->Ok_0
    &&& c.last_error == row.last_error
    &&& c.consecutive_failures == row.consecutive_failures
}

/// The row holds `c` as it is stored. A channel that is degraded has as many
/// failures as its status says, and one that failed has the error of its status.
pub open spec fn channel_holds(row: ChannelRow, c: ChannelConfig) -> bool {
    &&& row.id@ == id::uuid_text(c.id)
    &&& row.channel@ == channel::channel_db_text(c.channel)
    &&& row.label@ == c.label@
    &&& row.keychain_ref@ == c.keychain_ref@
    &&& row.enabled == if c.enabled {
        1i32
    } else {
        0i32
    }
    &&& row.poll_interval_secs == c.poll_interval_secs
    &&& message::optional_text(row.last_sync_cursor) == message::optional_text(
        c.last_sync_cursor,
    )
    &&& match c.last_sync_at {
        Some(t) => sql::storable_time(t) && (row.last_sync_at matches Some(x) && x@
            == sql::time_text(t)),
        None => row.last_sync_at is None,
    }
    &&& row.status@ == status::status_db_text(c.status@)
    &&& message::optional_text(row.last_error) == message::optional_text(c.last_error)
    &&& row.consecutive_failures == c.consecutive_failures
    &&& match c.status@ {
        StatusText::Healthy => true,
        StatusText::Degraded(n) => n == c.consecutive_failures && n > 0,
        StatusText::Failed(e) => message::optional_text(c.last_error) == Some(e),
    }
}

/// `a` and `b` are the same channel.
pub open spec fn same_channel(a: ChannelConfig, b: ChannelConfig) -> bool {
    &&& a.id == b.id
    &&& a.channel == b.channel
    &&& a.label@ == b.label@
    &&& a.keychain_ref@ == b.keychain_ref@
    &&& a.enabled == b.enabled
    &&& a.poll_interval_secs == b.poll_interval_secs
    &&& message::optional_text(a.last_sync_cursor) == message::optional_text(b.last_sync_cursor)
    &&& a.last_sync_at == b.last_sync_at
    &&& a.status@ == b.status@
    &&& message::optional_text(a.last_error) == message::optional_text(b.last_error)
    &&& a.consecutive_failures == b.consecutive_failures
}

/// The channel that a row holds. One that was stored is read as it was.
pub fn row_to_channel(row: &ChannelRow) -> (r: Result<ChannelConfig, CoreError>)
    ensures
        match channel_row_error(*row) {
            Some(x) => r is Err && sql::is_row_error(r->Err_0, x),
            None => r is Ok && channel_read(r->Ok_0, *row),
        },
        forall|c: ChannelConfig| #[trigger]
            channel_holds(*row, c) ==> r is Ok && same_channel(r->Ok_0, c),
{
    proof {
        lemma_status_texts();
    }
    let channel = match read_channel(row.channel.as_str()) {
        Ok(c) => c,
        Err(e) => {
            proof {
                assert forall|c: ChannelConfig| !#[trigger] channel_holds(*row, c) by {
                    if channel_holds(*row, c) {
                        assert(channel::channel_db_text(c.channel) == row.channel@);
                    }
                }
            }
            return Err(e);
        },
    };
    let mut last_sync_at: Option<Timestamp> = None;
    if let Some(t) = &row.last_sync_at {
        match read_time(t.as_str()) {
            Ok(x) => {
                last_sync_at = Some(x);
            },
            Err(e) => {
                proof {
                    assert forall|c: ChannelConfig| !#[trigger] channel_holds(*row, c) by {
                        if channel_holds(*row, c) {
                            assert(t@ == sql::time_text(c.last_sync_at->0));
                        }
                    }
                }
                return Err(e);
            },
        }
    }
    let status = match read_status(
        row.status.as_str(),
        &row.last_error,
        row.consecutive_failures,
    ) {
        Ok(s) => s,
        Err(e) => return Err(e),
    };
    let id = match read_id(row.id.as_str()) {
        Ok(x) => x,
        Err(e) => {
            proof {
                assert forall|c: ChannelConfig| !#[trigger] channel_holds(*row, c) by {
                    if channel_holds(*row, c) {
                        assert(row.id@ == id::uuid_text(c.id));
                    }
                }
            }
            return Err(e);
        },
    };
    let config = ChannelConfig {
        id,
        channel,
        label: row.label.clone(),
        keychain_ref: row.keychain_ref.clone(),
        enabled: row.enabled != 0,
        poll_interval_secs: row.poll_interval_secs,
        last_sync_cursor: crate::text::copy_option(&row.last_sync_cursor),
        last_sync_at,
        status,
        last_error: crate::text::copy_option(&row.last_error),
        consecutive_failures: row.consecutive_failures,
    };
    proof {
        assert forall|c: ChannelConfig| #[trigger] channel_holds(*row, c) implies same_channel(
            config,
            c,
        ) by {
            assert(channel::channel_db_text(c.channel) == row.channel@);
            assert(row.id@ == id::uuid_text(c.id));
            if let Some(t) = c.last_sync_at {
                assert(row.last_sync_at->0@ == sql::time_text(t));
            }
        }
    }
    Ok(config)
}

/// The first row that cannot be read, from `from` on; the length if all can.
pub open spec fn first_unreadable(rows: Seq<ChannelRow>, from: int) -> int
    decreases rows.len() - from,
{
    if from >= rows.len() {
        rows.len() as int
    } else if channel_row_error(rows[from]) is Some {
        from
    } else {
        first_unreadable(rows, from + 1)
    }
}

/// The channels that the rows hold, in order; or the error of the first row
/// that cannot be read.
pub fn list_channel_configs(rows: &Vec<ChannelRow>) -> (r: Result<Vec<ChannelConfig>, CoreError>)
    ensures
        ({
            let n = first_unreadable(rows@, 0);
            if n < rows@.len() {
                r is Err && sql::is_row_error(r->Err_0, channel_row_error(rows@[n])->0)
            } else {
                &&& r is Ok
                &&& r->Ok_0@.len() == rows@.len()
                &&& forall|i: int|
                    0 <= i < rows@.len() ==> channel_read(#[trigger] r->Ok_0@[i], rows@[i])
            }
        }),
{
    let mut configs: Vec<ChannelConfig> = Vec::new();
    for i in 0..rows.len()
        invariant
            configs@.len() == i,
            first_unreadable(rows@, 0) == first_unreadable(rows@, i as int),
            forall|k: int| 0 <= k < i ==> channel_read(#[trigger] configs@[k], rows@[k]),
    {
        match row_to_channel(&rows[i]) {
            Ok(c) => {
                configs.push(c);
            },
            Err(e) => {
                return Err(e);
            },
        }
    }
    Ok(configs)
}

// ---------------------------------------------------------------------------
// Laws
// ---------------------------------------------------------------------------

/// A status that was stored is read as it was, where the number of failures
/// that is stored with a degraded channel is that of its status.
pub proof fn stored_status_is_read_again(s: StatusText, failures: nat)
    requires
        s matches StatusText::Degraded(n) ==> n == failures && n > 0,
    ensures
        status_read(status::status_db_text(s), stored_error(s), failures) == Ok::<
            StatusText,
            RowError,
        >(s),
{
    lemma_status_texts();
}

/// What a task stores of a channel's health is read as it was: the status after
/// any number of failures comes back from that number and its stored error.
pub proof fn task_status_is_read_again(failures: nat, error: Option<Seq<char>>)
    ensures
        ({
            let s = status::status_after(failures, error);
            status_read(status::status_db_text(s), stored_error(s), failures) == Ok::<
                StatusText,
                RowError,
            >(s)
        }),
{
    stored_status_is_read_again(status::status_after(failures, error), failures);
}

} // verus!
