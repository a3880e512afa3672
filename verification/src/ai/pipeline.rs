//! From a message to its classification, stored and logged.
use vstd::prelude::*;

use crate::ai::category;
use crate::ai::classifier::Classification;
use crate::error;
use crate::error::{joined, CoreError};
use crate::id;
use crate::id::Uuid;
use crate::text;
use crate::text::copy_or_empty;
use crate::types::contact;
use crate::types::message;
use crate::types::{Channel, Contact, Message, PriorityScore};

verus! {

/// What came of a message.
#[derive(Clone, Copy, Debug, PartialEq, Eq, Structural)]
pub struct EnrichOutcome {
    /// Whether the model gave it a priority and a category.
    pub classified: bool,
}

/// A line of the log of what a model decided.
#[derive(Debug)]
pub struct LogEntry {
    pub action_type: String,
    pub entity_type: &'static str,
    pub entity_id: String,
    pub description: String,
}

/// `e` is the line with these texts.
pub open spec fn logs(
    e: LogEntry,
    action_type: Seq<char>,
    entity_type: Seq<char>,
    entity_id: Seq<char>,
    description: Seq<char>,
) -> bool {
    &&& e.action_type@ == action_type
    &&& e.entity_type@ == entity_type
    &&& e.entity_id@ == entity_id
    &&& e.description@ == description
}

/// What the classifier is given of a message.
#[derive(Debug)]
pub struct ClassifyInput {
    pub channel: Channel,
    pub sender_name: String,
    pub sender_address: String,
    pub subject: String,
    pub body: String,
}

/// What the classifier is given of a stored message and its sender: the
/// sender's address on the message's channel, and what the message says.
pub fn classify_input(msg: &Message, sender: &Contact) -> (r: ClassifyInput)
    ensures
        r.channel == msg.channel,
        r.sender_name@ == sender.display_name@,
        r.sender_address@ == contact::address_or_empty(sender.identities@, msg.channel),
        r.subject@ == text::text_or_empty(msg.content.subject),
        r.body@ == text::text_or_empty(msg.content.text),
{
    ClassifyInput {
        channel: msg.channel,
        sender_name: sender.display_name.clone(),
        sender_address: sender.address_or_empty(msg.channel),
        subject: copy_or_empty(&msg.content.subject),
        body: copy_or_empty(&msg.content.text),
    }
}

/// The description of a classification that failed.
pub open spec fn failure_reason(e: CoreError) -> Seq<char> {
    "classification failed: "@ + error::error_text(e)
}

/// How sure a logged decision is.
#[derive(Clone, Copy, Debug, PartialEq, Eq, Structural)]
pub enum Certainty {
    /// The confidence is one.
    Full,
    /// The confidence is zero.
    Zero,
}

/// What is logged about a message.
#[derive(Debug)]
pub struct DecisionLog {
    pub entry: LogEntry,
    pub certainty: Certainty,
    /// Whether the message counts as failed where this cannot be logged.
    pub must_succeed: bool,
}

/// What is logged for a classification, or for its failure. A failure to log a
/// failure is let pass.
pub open spec fn decision_log(
    d: DecisionLog,
    id: Uuid,
    result: Result<Classification, CoreError>,
) -> bool {
    match result {
        Ok(c) => {
            &&& logs(d.entry, "classify"@, "message"@, id::uuid_text(id), c.reasoning@)
            &&& d.certainty == Certainty::Full
            &&& d.must_succeed
        },
        Err(e) => {
            &&& logs(
                d.entry,
                "classify_failed"@,
                "message"@,
                id::uuid_text(id),
                failure_reason(e),
            )
            &&& d.certainty == Certainty::Zero
            &&& !d.must_succeed
        },
    }
}

fn log_decision(id: Uuid, result: &Result<Classification, CoreError>) -> (r: DecisionLog)
    ensures
        decision_log(r, id, *result),
{
    match result {
        Ok(c) => DecisionLog {
            entry: LogEntry {
                action_type: "classify".to_owned(),
                entity_type: "message",
                entity_id: id.text(),
                description: c.reasoning.clone(),
            },
            certainty: Certainty::Full,
            must_succeed: true,
        },
        Err(e) => DecisionLog {
            entry: LogEntry {
                action_type: "classify_failed".to_owned(),
                entity_type: "message",
                entity_id: id.text(),
                description: joined("classification failed: ", e.message().as_str()),
            },
            certainty: Certainty::Zero,
            must_succeed: false,
        },
    }
}

/// What is written for a stored message.
#[derive(Debug)]
pub struct StoredClassification {
    pub category: String,
    pub priority: PriorityScore,
    pub log: DecisionLog,
    pub outcome: EnrichOutcome,
}

/// What is written for a stored message once the classifier has answered. Where
/// it failed, the message gets the category `Unknown` and the least priority,
/// so that it is still seen.
pub fn classify_stored(id: Uuid, result: Result<Classification, CoreError>) -> (r:
    StoredClassification)
    ensures
        match result {
            Ok(c) => r.category@ == category::category_text(c.category) && r.priority
                == c.priority,
            Err(_) => r.category@ == "Unknown"@ && r.priority@ == 1,
        },
        decision_log(r.log, id, result),
        r.outcome.classified == (result is Ok),
{
    let log = log_decision(id, &result);
    match result {
        Ok(c) => StoredClassification {
            category: c.category.as_str().to_owned(),
            priority: c.priority,
            log,
            outcome: EnrichOutcome { classified: true },
        },
        Err(_) => StoredClassification {
            category: "Unknown".to_owned(),
            priority: PriorityScore::new(1).unwrap(),
            log,
            outcome: EnrichOutcome { classified: false },
        },
    }
}

/// What is stored for a new message.
#[derive(Debug)]
pub struct Enriched {
    pub message: Message,
    pub log: DecisionLog,
    pub outcome: EnrichOutcome,
}

/// A new message once the classifier has answered: with its priority and
/// category, or as it came where the classifier failed.
pub fn enrich_and_store(msg: Message, result: Result<Classification, CoreError>) -> (r: Enriched)
    ensures
        match result {
            Ok(c) => {
                &&& r.message.priority == Some(c.priority)
                &&& message::optional_text(r.message.category) == Some(
                    category::category_text(c.category),
                )
                &&& (Message { priority: None, category: None, ..r.message }) == (Message {
                    priority: None,
                    category: None,
                    ..msg
                })
            },
            Err(_) => r.message == msg,
        },
        decision_log(r.log, msg.id, result),
        r.outcome.classified == (result is Ok),
{
    let log = log_decision(msg.id, &result);
    let mut m = msg;
    match result {
        Ok(c) => {
            m.priority = Some(c.priority);
            m.category = Some(c.category.as_str().to_owned());
            Enriched { message: m, log, outcome: EnrichOutcome { classified: true } }
        },
        Err(_) => Enriched { message: m, log, outcome: EnrichOutcome { classified: false } },
    }
}

} // verus!
