//! What the cloud actions have in common.
use vstd::prelude::*;

use crate::ai::cloud::config::{CloudAction, CloudConfig};
use crate::ai::cloud::redactor;
use crate::ai::cloud::redactor::{Redactor, ReverseMap};
use crate::ai::json;
use crate::ai::json::{extract_first_json_object, strip_fences};
use crate::ai::pipeline::LogEntry;
use crate::ai::rag::RagContext;
use crate::error::{joined, CoreError};
use crate::id::Uuid;
use crate::text;
use crate::text::{debug_text, is_blank};

verus! {

/// The provider by whose name drafts are stored.
pub const PROVIDER: &'static str = "anthropic";

/// A text as it leaves the machine, and the way back.
#[derive(Debug)]
pub struct Outgoing {
    pub text: String,
    pub map: ReverseMap,
}

/// `o` is how `text` leaves the machine: scrubbed where that is asked for, else
/// as it is.
pub open spec fn leaves_as(o: Outgoing, text: Seq<char>, r: Redactor, cfg: CloudConfig) -> bool {
    if cfg.redact {
        &&& o.text@ == redactor::redaction(r.names(), text).text
        &&& o.map@ == redactor::reverse_pairs(redactor::redaction(r.names(), text).entries)
    } else {
        &&& o.text@ == text
        &&& o.map@.len() == 0
    }
}

/// The text as it leaves the machine.
pub fn outgoing(text: &str, r: &Redactor, cfg: CloudConfig) -> (o: Outgoing)
    requires
        cfg.redact ==> r.ready(),
    ensures
        leaves_as(o, text@, *r, cfg),
        o.map.well_formed(),
{
    if cfg.redact {
        let (text, map) = r.redact(text);
        Outgoing { text, map }
    } else {
        Outgoing { text: text.to_owned(), map: ReverseMap::new() }
    }
}

/// The message for an answer without an object.
pub open spec fn no_object_text(raw: Seq<char>) -> Seq<char> {
    "no JSON object in cloud response: "@ + text::debug_form(raw)
}

/// The message for an object that is not an answer.
pub open spec fn schema_text(detail: Seq<char>) -> Seq<char> {
    "cloud response schema mismatch: "@ + detail
}

/// `e` is the cloud error with this message.
pub open spec fn is_cloud_error(e: CoreError, m: Seq<char>) -> bool {
    e matches CoreError::Cloud(t) && t@ == m
}

/// The object in an answer.
pub fn answer_object(raw: &str) -> (r: Result<String, CoreError>)
    ensures
        match json::first_object(json::unfenced(raw@)) {
            Some(o) => r is Ok && r->Ok_0@ == o,
            None => r is Err && is_cloud_error(r->Err_0, no_object_text(raw@)),
        },
{
    let stripped = strip_fences(raw);
    match extract_first_json_object(stripped.as_str()) {
        Some(o) => Ok(o),
        None => Err(
            CoreError::Cloud(
                joined("no JSON object in cloud response: ", debug_text(raw).as_str()),
            ),
        ),
    }
}

/// The error for an object that is not an answer.
pub fn schema_error(detail: &str) -> (r: CoreError)
    ensures
        is_cloud_error(r, schema_text(detail@)),
{
    CoreError::Cloud(joined("cloud response schema mismatch: ", detail))
}

/// What is stored of an action that succeeded.
#[derive(Debug)]
pub struct DraftPlan {
    /// The message that the draft is about.
    pub message_id: Option<Uuid>,
    pub action: CloudAction,
    /// The text as it left the machine.
    pub input_redacted: String,
    /// What the user sees.
    pub output: String,
    pub log: LogEntry,
}

/// What decides on the confidence in an answer, beside the chunks that were
/// found: whether the sender is known, and whether there is a profile.
pub fn confidence_signals(rag: &RagContext) -> (r: (bool, bool))
    ensures
        r.0 == (rag.sender_name is Some),
        r.1 == !text::blank(rag.user_profile_content@),
{
    (rag.sender_name.is_some(), !is_blank(rag.user_profile_content.as_str()))
}

} // verus!
