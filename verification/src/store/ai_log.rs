//! The log of what models decided.
use vstd::prelude::*;

use crate::ai::pipeline::LogEntry;
use crate::store::meaning;
use crate::store::record_laws;
use crate::store::sql;
use crate::store::sql::{statement, text_value, SqlValue, Statement, ValueText};

verus! {

/// A line of the log.
#[derive(Debug)]
pub struct AiDecision {
    pub id: i64,
    pub action_type: String,
    pub entity_type: Option<String>,
    pub entity_id: Option<String>,
    pub reasoning: Option<String>,
    /// The bits of the confidence.
    pub confidence_score: Option<u64>,
    pub created_at: String,
}

/// The statement that adds a line.
pub const INSERT_DECISION: &'static str =
    "INSERT INTO action_log (action_type, entity_type, entity_id, reasoning, confidence_score)
             VALUES (?1, ?2, ?3, ?4, ?5)";

/// The statement for the lines about an entity, the oldest first.
pub const SELECT_DECISIONS: &'static str =
    "SELECT id, action_type, entity_type, entity_id, reasoning, confidence_score, created_at
             FROM action_log
             WHERE entity_type = ?1 AND entity_id = ?2
             ORDER BY id ASC";

/// The values of the statement that adds a line.
pub open spec fn decision_values(e: LogEntry, confidence: u64) -> Seq<ValueText> {
    seq![
        ValueText::Text(e.action_type@),
        ValueText::Text(e.entity_type@),
        ValueText::Text(e.entity_id@),
        ValueText::Text(e.description@),
        ValueText::Real(confidence),
    ]
}

/// The values by which the lines about an entity are asked for.
pub open spec fn entity_values(entity_type: Seq<char>, entity_id: Seq<char>) -> Seq<ValueText> {
    seq![ValueText::Text(entity_type), ValueText::Text(entity_id)]
}

/// The statement that adds a line, with the confidence by its bits.
pub fn log_ai_decision(e: &LogEntry, confidence: u64) -> (r: Statement)
    ensures
        sql::says(r, INSERT_DECISION@, decision_values(*e, confidence)),
        r.sql@ == meaning::insert_text(record_laws::decision_insert()),
{
    proof {
        record_laws::lemma_decision_insert_text();
    }
    let params = vec![
        text_value(e.action_type.as_str()),
        text_value(e.entity_type),
        text_value(e.entity_id.as_str()),
        text_value(e.description.as_str()),
        SqlValue::Real(confidence),
    ];
    proof {
        assert(sql::values(params@) =~= decision_values(*e, confidence));
    }
    statement(INSERT_DECISION, params)
}

/// The statement for the lines about an entity.
pub fn list_ai_decisions_for_entity(entity_type: &str, entity_id: &str) -> (r: Statement)
    ensures
        sql::says(r, SELECT_DECISIONS@, entity_values(entity_type@, entity_id@)),
        r.sql@ == meaning::query_text(record_laws::decisions_query()),
{
    proof {
        record_laws::lemma_decisions_query_text();
    }
    let params = vec![text_value(entity_type), text_value(entity_id)];
    proof {
        assert(sql::values(params@) =~= entity_values(entity_type@, entity_id@));
    }
    statement(SELECT_DECISIONS, params)
}

} // verus!
