//! Statements for the database, and what comes back from it.
use vstd::prelude::*;

use crate::error::{joined, CoreError};
use crate::id;
use crate::id::Uuid;
use crate::time;
use crate::time::Timestamp;
use crate::types::channel;
use crate::types::Channel;

verus! {

/// A value of a statement.
#[derive(Debug)]
pub enum SqlValue {
    Null,
    Integer(i64),
    /// A double-precision number, by its bits.
    Real(u64),
    Text(String),
    Blob(Vec<u8>),
}

/// A value as a mathematical one.
pub enum ValueText {
    Null,
    Integer(int),
    Real(u64),
    Text(Seq<char>),
    Blob(Seq<u8>),
}

impl View for SqlValue {
    type V = ValueText;

    open spec fn view(&self) -> ValueText {
        match *self {
            SqlValue::Null => ValueText::Null,
            SqlValue::Integer(n) => ValueText::Integer(n as int),
            SqlValue::Real(b) => ValueText::Real(b),
            SqlValue::Text(s) => ValueText::Text(s@),
            SqlValue::Blob(b) => ValueText::Blob(b@),
        }
    }
}

/// The values that a vector holds.
pub open spec fn values(v: Seq<SqlValue>) -> Seq<ValueText> {
    v.map_values(|x: SqlValue| x@)
}

/// A statement and the values for its parameters, from the first on.
#[derive(Debug)]
pub struct Statement {
    pub sql: String,
    pub params: Vec<SqlValue>,
}

/// `s` is this statement with these values.
pub open spec fn says(s: Statement, sql: Seq<char>, params: Seq<ValueText>) -> bool {
    s.sql@ == sql && values(s.params@) == params
}

/// A flag as a number.
pub open spec fn flag(b: bool) -> ValueText {
    ValueText::Integer(
        if b {
            1
        } else {
            0
        },
    )
}

/// A text, or nothing.
pub open spec fn optional(o: Option<Seq<char>>) -> ValueText {
    match o {
        Some(s) => ValueText::Text(s),
        None => ValueText::Null,
    }
}

/// A value that holds the text.
pub fn text_value(s: &str) -> (r: SqlValue)
    ensures
        r@ == ValueText::Text(s@),
{
    SqlValue::Text(s.to_owned())
}

/// A value that holds the text, or nothing.
pub fn optional_value(o: &Option<String>) -> (r: SqlValue)
    ensures
        r@ == optional(crate::types::message::optional_text(*o)),
{
    match o {
        Some(s) => SqlValue::Text(s.clone()),
        None => SqlValue::Null,
    }
}

/// A value that holds the flag.
pub fn flag_value(b: bool) -> (r: SqlValue)
    ensures
        r@ == flag(b),
{
    SqlValue::Integer(
        if b {
            1
        } else {
            0
        },
    )
}

/// The statement with these values.
pub fn statement(sql: &str, params: Vec<SqlValue>) -> (r: Statement)
    ensures
        says(r, sql@, values(params@)),
{
    Statement { sql: sql.to_owned(), params }
}

/// `e` says that there is no such thing.
pub open spec fn is_not_found(e: CoreError, entity: Seq<char>, id: Seq<char>) -> bool {
    e matches CoreError::NotFound { entity: x, id: i } && x@ == entity && i@ == id
}

/// The error for a thing that is not there.
pub fn not_found(entity: &str, id: &str) -> (r: CoreError)
    ensures
        is_not_found(r, entity@, id@),
{
    CoreError::NotFound { entity: entity.to_owned(), id: id.to_owned() }
}

/// A change that met no row is an error.
pub fn require_row(rows: usize, entity: &str, id: &str) -> (r: Result<(), CoreError>)
    ensures
        r is Ok <==> rows > 0,
        r is Err ==> is_not_found(r->Err_0, entity@, id@),
{
    if rows == 0 {
        Err(not_found(entity, id))
    } else {
        Ok(())
    }
}

/// `e` says that something stored is not what it should be.
pub open spec fn is_invalid(e: CoreError, m: Seq<char>) -> bool {
    e matches CoreError::InvalidInput(t) && t@ == m
}

/// Something in a stored row that cannot be read.
pub enum RowError {
    /// It is not what it should be.
    Invalid(Seq<char>),
    /// It contradicts another part of the row.
    Contradiction(Seq<char>),
}

/// `e` is the error for it.
pub open spec fn is_row_error(e: CoreError, x: RowError) -> bool {
    match x {
        RowError::Invalid(m) => is_invalid(e, m),
        RowError::Contradiction(m) => e matches CoreError::Database(t) && t@ == m,
    }
}

/// The message for a channel that is none.
pub open spec fn unknown_channel(s: Seq<char>) -> Seq<char> {
    "unknown channel: "@ + s
}

/// `s` is the text by which a channel is stored.
pub open spec fn stores_channel(s: Seq<char>) -> bool {
    exists|c: Channel| #[trigger] channel::channel_db_text(c) == s
}

/// The channel that is stored by `s`.
pub fn read_channel(s: &str) -> (r: Result<Channel, CoreError>)
    ensures
        r is Ok <==> stores_channel(s@),
        r is Ok ==> channel::channel_db_text(r->Ok_0) == s@,
        r is Err ==> is_invalid(r->Err_0, unknown_channel(s@)),
        forall|c: Channel| #[trigger]
            channel::channel_db_text(c) == s@ ==> r is Ok && r->Ok_0 == c,
{
    match Channel::from_db_str(s) {
        Some(c) => Ok(c),
        None => Err(CoreError::InvalidInput(joined("unknown channel: ", s))),
    }
}

/// The identifier that `s` writes.
pub fn read_id(s: &str) -> (r: Result<Uuid, CoreError>)
    ensures
        r is Ok <==> id::uuid_parsed(s@) is Ok,
        r is Ok ==> r->Ok_0.bits == id::uuid_parsed(s@)->Ok_0,
        r is Err ==> is_invalid(r->Err_0, id::uuid_parsed(s@)->Err_0),
        forall|x: Uuid| s@ == #[trigger] id::uuid_text(x) ==> r is Ok && r->Ok_0 == x,
{
    match Uuid::parse(s) {
        Ok(x) => Ok(x),
        Err(e) => Err(CoreError::InvalidInput(e)),
    }
}

/// The text by which a point in time is stored.
pub open spec fn time_text(t: Timestamp) -> Seq<char> {
    time::rfc3339_text(t@.0 as i64, t@.1 as u32)
}

/// The point in time can be stored and read again: it is valid, and its year
/// has four digits.
pub open spec fn storable_time(t: Timestamp) -> bool {
    time::valid_time(t@.0, t@.1) && time::four_digit_year(t@.0)
}

/// `t` is the point in time that was read.
pub open spec fn time_is(t: Timestamp, read: (i64, u32)) -> bool {
    t@ == (read.0 as int, read.1 as int)
}

/// The point in time that `s` writes.
pub fn read_time(s: &str) -> (r: Result<Timestamp, CoreError>)
    ensures
        r is Ok <==> time::rfc3339_parsed(s@) is Ok,
        r is Ok ==> time_is(r->Ok_0, time::rfc3339_parsed(s@)->Ok_0),
        r is Err ==> is_invalid(r->Err_0, time::rfc3339_parsed(s@)->Err_0),
        forall|t: Timestamp|
            storable_time(t) && s@ == #[trigger] time_text(t) ==> r is Ok && r->Ok_0 == t,
{
    match Timestamp::parse_rfc3339(s) {
        Ok(t) => {
            proof {
                assert forall|u: Timestamp|
                    storable_time(u) && s@ == #[trigger] time_text(u) implies t == u by {
                    assert(time::valid_time(u@.0, u@.1));
                }
            }
            Ok(t)
        },
        Err(e) => {
            proof {
                assert forall|u: Timestamp|
                    storable_time(u) && s@ == #[trigger] time_text(u) implies false by {
                    assert(time::valid_time(u@.0, u@.1));
                }
            }
            Err(CoreError::InvalidInput(e))
        },
    }
}

/// How a transaction ends.
#[derive(Clone, Copy, Debug, PartialEq, Eq, Structural)]
pub enum TransactionEnd {
    /// With `COMMIT`, whose failure counts.
    Commit,
    /// With `ROLLBACK`, whose failure does not.
    Rollback,
}

/// A transaction is kept where all in it succeeded, else undone.
pub fn transaction_end(succeeded: bool) -> (r: TransactionEnd)
    ensures
        r == if succeeded {
            TransactionEnd::Commit
        } else {
            TransactionEnd::Rollback
        },
{
    if succeeded {
        TransactionEnd::Commit
    } else {
        TransactionEnd::Rollback
    }
}

/// What a query for one row gives.
#[derive(Debug)]
pub enum Lookup<T> {
    Found(T),
    Missing,
    Failed(String),
}

/// What is found, nothing where it is missing, or the database's error.
pub fn found_or_none<T>(l: Lookup<T>) -> (r: Result<Option<T>, CoreError>)
    ensures
        match l {
            Lookup::Found(t) => r is Ok && r->Ok_0 == Some(t),
            Lookup::Missing => r is Ok && r->Ok_0 is None,
            Lookup::Failed(e) => r is Err && (r->Err_0 matches CoreError::Database(m) && m == e),
        },
{
    match l {
        Lookup::Found(t) => Ok(Some(t)),
        Lookup::Missing => Ok(None),
        Lookup::Failed(e) => Err(CoreError::Database(e)),
    }
}

/// What is found; an error where it is missing, or the database's.
pub fn found_or_error<T>(l: Lookup<T>, entity: &str, id: &str) -> (r: Result<T, CoreError>)
    ensures
        match l {
            Lookup::Found(t) => r is Ok && r->Ok_0 == t,
            Lookup::Missing => r is Err && is_not_found(r->Err_0, entity@, id@),
            Lookup::Failed(e) => r is Err && (r->Err_0 matches CoreError::Database(m) && m == e),
        },
{
    match l {
        Lookup::Found(t) => Ok(t),
        Lookup::Missing => Err(not_found(entity, id)),
        Lookup::Failed(e) => Err(CoreError::Database(e)),
    }
}

} // verus!
