//! Replies that the user has not sent yet, one to a thread.
use vstd::prelude::*;
use vstd::string::StringExecFns;

use crate::error::CoreError;
use crate::id;
use crate::id::Uuid;
use crate::store::meaning;
use crate::store::record_laws;
use crate::store::sql;
use crate::store::sql::{read_id, statement, text_value, SqlValue, Statement, ValueText};
use crate::time;
use crate::time::Timestamp;

verus! {

/// A reply that was not sent yet.
#[derive(Debug)]
pub struct ReplyDraft {
    pub thread_id: Uuid,
    pub in_reply_to_message_id: Uuid,
    pub body: String,
    pub subject: Option<String>,
    pub updated_at: Timestamp,
}

/// A reply that is to be stored.
#[derive(Debug)]
pub struct NewReplyDraft<'a> {
    pub thread_id: Uuid,
    pub in_reply_to_message_id: Uuid,
    pub body: &'a str,
    pub subject: Option<&'a str>,
}

/// The statement that stores a reply, in place of the thread's earlier one.
pub const UPSERT_REPLY: &'static str =
    "INSERT INTO reply_drafts (thread_id, in_reply_to_message_id, body, subject, updated_at)
             VALUES (?1, ?2, ?3, ?4, strftime('%Y-%m-%dT%H:%M:%SZ', 'now'))
             ON CONFLICT(thread_id) DO UPDATE SET in_reply_to_message_id = excluded.in_reply_to_message_id, body = excluded.body, subject = excluded.subject, updated_at = excluded.updated_at";

/// The statement for the reply of a thread.
pub const SELECT_REPLY: &'static str =
    "SELECT thread_id, in_reply_to_message_id, body, subject, updated_at
                 FROM reply_drafts
                 WHERE thread_id = ?1";

/// The values under which a reply is stored.
pub open spec fn reply_values(d: NewReplyDraft) -> Seq<ValueText> {
    seq![
        ValueText::Text(id::uuid_text(d.thread_id)),
        ValueText::Text(id::uuid_text(d.in_reply_to_message_id)),
        ValueText::Text(d.body@),
        sql::optional(
            match d.subject {
                Some(s) => Some(s@),
                None => None,
            },
        ),
    ]
}

/// The statement that stores a reply.
pub fn upsert_reply_draft(d: &NewReplyDraft) -> (r: Statement)
    ensures
        sql::says(r, UPSERT_REPLY@, reply_values(*d)),
        r.sql@ == meaning::insert_text(record_laws::reply_upsert()),
{
    proof {
        record_laws::lemma_reply_upsert_text();
    }
    let subject = match d.subject {
        Some(s) => text_value(s),
        None => SqlValue::Null,
    };
    let params = vec![
        SqlValue::Text(d.thread_id.text()),
        SqlValue::Text(d.in_reply_to_message_id.text()),
        text_value(d.body),
        subject,
    ];
    proof {
        assert(sql::values(params@) =~= reply_values(*d));
    }
    statement(UPSERT_REPLY, params)
}

/// The statement for the reply of a thread.
pub fn get_reply_draft(thread_id: Uuid) -> (r: Statement)
    ensures
        sql::says(r, SELECT_REPLY@, seq![ValueText::Text(id::uuid_text(thread_id))]),
        r.sql@ == meaning::query_text(record_laws::reply_query()),
{
    proof {
        record_laws::lemma_reply_query_text();
    }
    let params = vec![SqlValue::Text(thread_id.text())];
    proof {
        assert(sql::values(params@) =~= seq![ValueText::Text(id::uuid_text(thread_id))]);
    }
    statement(SELECT_REPLY, params)
}

/// The statement that takes the reply of a thread away. There need not be one.
pub fn delete_reply_draft(thread_id: Uuid) -> (r: Statement)
    ensures
        sql::says(
            r,
            "DELETE FROM reply_drafts WHERE thread_id = ?1"@,
            seq![ValueText::Text(id::uuid_text(thread_id))],
        ),
        r.sql@ == meaning::delete_text(record_laws::reply_delete()),
{
    proof {
        record_laws::lemma_reply_delete_text();
    }
    let params = vec![SqlValue::Text(thread_id.text())];
    proof {
        assert(sql::values(params@) =~= seq![ValueText::Text(id::uuid_text(thread_id))]);
    }
    statement("DELETE FROM reply_drafts WHERE thread_id = ?1", params)
}

/// A row of the table of replies.
#[derive(Debug)]
pub struct ReplyDraftRow {
    pub thread_id: String,
    pub in_reply_to_message_id: String,
    pub body: String,
    pub subject: Option<String>,
    pub updated_at: String,
}

/// The message for a time that cannot be read.
pub open spec fn bad_time_text(text: Seq<char>, detail: Seq<char>) -> Seq<char> {
    "bad updated_at '"@ + text + "': "@ + detail
}

/// The row holds `d` as it is stored, and a time that can be read.
pub open spec fn reply_holds(row: ReplyDraftRow, d: NewReplyDraft) -> bool {
    &&& row.thread_id@ == id::uuid_text(d.thread_id)
    &&& row.in_reply_to_message_id@ == id::uuid_text(d.in_reply_to_message_id)
    &&& row.body@ == d.body@
    &&& match d.subject {
        Some(s) => row.subject matches Some(t) && t@ == s@,
        None => row.subject is None,
    }
    &&& time::rfc3339_parsed(row.updated_at@) is Ok
}

/// `r` is the reply `d`.
pub open spec fn is_reply(r: ReplyDraft, d: NewReplyDraft) -> bool {
    &&& r.thread_id == d.thread_id
    &&& r.in_reply_to_message_id == d.in_reply_to_message_id
    &&& r.body@ == d.body@
    &&& match d.subject {
        Some(s) => r.subject matches Some(t) && t@ == s@,
        None => r.subject is None,
    }
}

/// The reply that a row holds, or the error of the first thing in it that
/// cannot be read. A reply that was stored is read as it was.
pub fn row_to_reply_draft(row: ReplyDraftRow) -> (r: Result<ReplyDraft, CoreError>)
    ensures
        if id::uuid_parsed(row.thread_id@) is Err {
            r is Err && sql::is_invalid(r->Err_0, id::uuid_parsed(row.thread_id@)->Err_0)
        } else if id::uuid_parsed(row.in_reply_to_message_id@) is Err {
            r is Err && sql::is_invalid(
                r->Err_0,
                id::uuid_parsed(row.in_reply_to_message_id@)->Err_0,
            )
        } else if time::rfc3339_parsed(row.updated_at@) is Err {
            r is Err && sql::is_invalid(
                r->Err_0,
                bad_time_text(
                    row.updated_at@,
                    time::rfc3339_parsed(row.updated_at@)->Err_0,
                ),
            )
        } else {
            &&& r is Ok
            &&& r->Ok_0.thread_id.bits == id::uuid_parsed(row.thread_id@)->Ok_0
            &&& r->Ok_0.in_reply_to_message_id.bits == id::uuid_parsed(
                row.in_reply_to_message_id@,
            )->Ok_0
            &&& r->Ok_0.body == row.body
            &&& r->Ok_0.subject == row.subject
            &&& sql::time_is(
                r->Ok_0.updated_at,
                time::rfc3339_parsed(row.updated_at@)->Ok_0,
            )
        },
        forall|d: NewReplyDraft| #[trigger]
            reply_holds(row, d) ==> r is Ok && is_reply(r->Ok_0, d),
{
    let ghost given = row;
    let thread_id = match read_id(row.thread_id.as_str()) {
        Ok(x) => x,
        Err(e) => {
            proof {
                assert forall|d: NewReplyDraft| !#[trigger] reply_holds(given, d) by {
                    if reply_holds(given, d) {
                        assert(given.thread_id@ == id::uuid_text(d.thread_id));
                    }
                }
            }
            return Err(e);
        },
    };
    let in_reply_to_message_id = match read_id(row.in_reply_to_message_id.as_str()) {
        Ok(x) => x,
        Err(e) => {
            proof {
                assert forall|d: NewReplyDraft| !#[trigger] reply_holds(given, d) by {
                    if reply_holds(given, d) {
                        assert(given.in_reply_to_message_id@ == id::uuid_text(
                            d.in_reply_to_message_id,
                        ));
                    }
                }
            }
            return Err(e);
        },
    };
    let updated_at = match Timestamp::parse_rfc3339(row.updated_at.as_str()) {
        Ok(t) => t,
        Err(e) => {
            let mut m = "bad updated_at '".to_owned();
            m.append(row.updated_at.as_str());
            m.append("': ");
            m.append(e.as_str());
            return Err(CoreError::InvalidInput(m));
        },
    };
    proof {
        assert forall|d: NewReplyDraft| #[trigger] reply_holds(given, d) implies thread_id
            == d.thread_id && in_reply_to_message_id == d.in_reply_to_message_id by {
            assert(given.thread_id@ == id::uuid_text(d.thread_id));
            assert(given.in_reply_to_message_id@ == id::uuid_text(d.in_reply_to_message_id));
        }
    }
    Ok(
        ReplyDraft {
            thread_id,
            in_reply_to_message_id,
            body: row.body,
            subject: row.subject,
            updated_at,
        },
    )
}

} // verus!
