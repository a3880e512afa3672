//! Stored drafts of the cloud actions.
use vstd::prelude::*;

use crate::error::CoreError;
use crate::id;
use crate::id::Uuid;
use crate::store::meaning;
use crate::store::messages;
use crate::store::messages::write_id;
use crate::store::record_laws;
use crate::store::sql;
use crate::store::sql::{require_row, statement, text_value, SqlValue, Statement, ValueText};

verus! {

/// A draft that is to be stored.
#[derive(Debug)]
pub struct NewDraft<'a> {
    pub id: Uuid,
    /// The message that the draft is about, where there is one.
    pub message_id: Option<Uuid>,
    pub action_type: &'a str,
    pub input_redacted: &'a str,
    pub output: &'a str,
    /// The bits of the confidence.
    pub confidence: u64,
    pub provider: &'a str,
    pub model: &'a str,
}

/// A stored draft.
#[derive(Debug)]
pub struct DraftRecord {
    pub id: Uuid,
    pub message_id: Option<Uuid>,
    pub action_type: String,
    pub input_redacted: String,
    pub output: String,
    pub user_edited_output: Option<String>,
    /// The bits of the confidence.
    pub confidence: u64,
    pub provider: String,
    pub model: String,
    pub created_at: String,
}

/// The statement that stores a draft.
pub const INSERT_DRAFT: &'static str =
    "INSERT INTO ai_drafts (id, message_id, action_type, input_redacted, output, confidence, provider, model)
             VALUES (?1, ?2, ?3, ?4, ?5, ?6, ?7, ?8)";

/// The statement for the drafts about a message, the newest first.
pub const SELECT_DRAFTS: &'static str =
    "SELECT id, message_id, action_type, input_redacted, output, user_edited_output, confidence, provider, model, created_at
             FROM ai_drafts
             WHERE message_id = ?1
             ORDER BY created_at DESC, id DESC";

/// The values under which a draft is stored.
pub open spec fn draft_values(d: NewDraft) -> Seq<ValueText> {
    seq![
        ValueText::Text(id::uuid_text(d.id)),
        messages::id_value(d.message_id),
        ValueText::Text(d.action_type@),
        ValueText::Text(d.input_redacted@),
        ValueText::Text(d.output@),
        ValueText::Real(d.confidence),
        ValueText::Text(d.provider@),
        ValueText::Text(d.model@),
    ]
}

/// The statement that stores a draft.
pub fn insert_draft(d: &NewDraft) -> (r: Statement)
    ensures
        sql::says(r, INSERT_DRAFT@, draft_values(*d)),
        r.sql@ == meaning::insert_text(record_laws::draft_insert()),
{
    proof {
        record_laws::lemma_draft_insert_text();
    }
    let params = vec![
        SqlValue::Text(d.id.text()),
        write_id(d.message_id),
        text_value(d.action_type),
        text_value(d.input_redacted),
        text_value(d.output),
        SqlValue::Real(d.confidence),
        text_value(d.provider),
        text_value(d.model),
    ];
    proof {
        assert(sql::values(params@) =~= draft_values(*d));
    }
    statement(INSERT_DRAFT, params)
}

/// The statement for the drafts about a message.
pub fn list_drafts_for_message(message_id: Uuid) -> (r: Statement)
    ensures
        sql::says(r, SELECT_DRAFTS@, seq![ValueText::Text(id::uuid_text(message_id))]),
        r.sql@ == meaning::query_text(record_laws::drafts_query()),
{
    proof {
        record_laws::lemma_drafts_query_text();
    }
    let params = vec![SqlValue::Text(message_id.text())];
    proof {
        assert(sql::values(params@) =~= seq![ValueText::Text(id::uuid_text(message_id))]);
    }
    statement(SELECT_DRAFTS, params)
}

/// The values of the statement that stores what the user made of a draft.
pub open spec fn edit_values(draft_id: Uuid, edited: Seq<char>) -> Seq<ValueText> {
    seq![ValueText::Text(edited), ValueText::Text(id::uuid_text(draft_id))]
}

/// The statement that stores what the user made of a draft, beside the draft.
pub fn update_draft_output(draft_id: Uuid, edited: &str) -> (r: Statement)
    ensures
        sql::says(
            r,
            "UPDATE ai_drafts SET user_edited_output = ?1 WHERE id = ?2"@,
            edit_values(draft_id, edited@),
        ),
        r.sql@ == meaning::update_text(record_laws::draft_update()),
{
    proof {
        record_laws::lemma_draft_update_text();
    }
    let params = vec![text_value(edited), SqlValue::Text(draft_id.text())];
    proof {
        assert(sql::values(params@) =~= edit_values(draft_id, edited@));
    }
    statement("UPDATE ai_drafts SET user_edited_output = ?1 WHERE id = ?2", params)
}

/// A draft that is to be changed has to be there.
pub fn check_updated(rows: usize, draft_id: Uuid) -> (r: Result<(), CoreError>)
    ensures
        r is Ok <==> rows > 0,
        r is Err ==> sql::is_not_found(r->Err_0, "ai_draft"@, id::uuid_text(draft_id)),
{
    let t = draft_id.text();
    require_row(rows, "ai_draft", t.as_str())
}

/// A row of the table of drafts.
#[derive(Debug)]
pub struct DraftRow {
    pub id: String,
    pub message_id: Option<String>,
    pub action_type: String,
    pub input_redacted: String,
    pub output: String,
    pub user_edited_output: Option<String>,
    pub confidence: u64,
    pub provider: String,
    pub model: String,
    pub created_at: String,
}

/// The row holds `d` as it is stored.
pub open spec fn draft_holds(row: DraftRow, d: NewDraft) -> bool {
    &&& row.id@ == id::uuid_text(d.id)
    &&& match d.message_id {
        Some(m) => row.message_id matches Some(t) && t@ == id::uuid_text(m),
        None => row.message_id is None,
    }
    &&& row.action_type@ == d.action_type@
    &&& row.input_redacted@ == d.input_redacted@
    &&& row.output@ == d.output@
    &&& row.confidence == d.confidence
    &&& row.provider@ == d.provider@
    &&& row.model@ == d.model@
}

/// `r` is the draft `d`.
pub open spec fn is_draft(r: DraftRecord, d: NewDraft) -> bool {
    &&& r.id == d.id
    &&& r.message_id == d.message_id
    &&& r.action_type@ == d.action_type@
    &&& r.input_redacted@ == d.input_redacted@
    &&& r.output@ == d.output@
    &&& r.confidence == d.confidence
    &&& r.provider@ == d.provider@
    &&& r.model@ == d.model@
}

/// The draft that a row holds. An identifier that cannot be read is zero, a
/// message's none. A draft that was stored is read as it was.
pub fn row_to_draft(row: DraftRow) -> (r: DraftRecord)
    ensures
        r.id.bits == match id::uuid_parsed(row.id@) {
            Ok(bits) => bits,
            Err(_) => 0,
        },
        match row.message_id {
            None => r.message_id is None,
            Some(m) => match id::uuid_parsed(m@) {
                Ok(bits) => r.message_id == Some(Uuid { bits }),
                Err(_) => r.message_id is None,
            },
        },
        r.action_type == row.action_type,
        r.input_redacted == row.input_redacted,
        r.output == row.output,
        r.user_edited_output == row.user_edited_output,
        r.confidence == row.confidence,
        r.provider == row.provider,
        r.model == row.model,
        r.created_at == row.created_at,
        forall|d: NewDraft| #[trigger] draft_holds(row, d) ==> is_draft(r, d),
{
    let ghost given = row;
    let id = match Uuid::parse(row.id.as_str()) {
        Ok(x) => x,
        Err(_) => Uuid { bits: 0 },
    };
    let message_id = match &row.message_id {
        Some(m) => match Uuid::parse(m.as_str()) {
            Ok(x) => Some(x),
            Err(_) => None,
        },
        None => None,
    };
    proof {
        assert forall|d: NewDraft| #[trigger] draft_holds(given, d) implies id == d.id
            && message_id == d.message_id by {
            assert(given.id@ == id::uuid_text(d.id));
            if let Some(m) = d.message_id {
                assert(given.message_id->0@ == id::uuid_text(m));
            }
        }
    }
    DraftRecord {
        id,
        message_id,
        action_type: row.action_type,
        input_redacted: row.input_redacted,
        output: row.output,
        user_edited_output: row.user_edited_output,
        confidence: row.confidence,
        provider: row.provider,
        model: row.model,
        created_at: row.created_at,
    }
}

} // verus!
