//! The prompt that asks for a classification, and the reading of its answer.
use vstd::prelude::*;
use vstd::string::StringExecFns;

use crate::ai::category;
use crate::ai::category::Category;
use crate::ai::classifier::Classification;
use crate::ai::json;
use crate::ai::json::{extract_first_json_object, strip_fences};
use crate::ai::rag;
use crate::ai::rag::RagContext;
use crate::error::CoreError;
use crate::text;
use crate::text::{
    debug_text, decimal_string, excerpt_chars, from_chars, is_blank, to_chars, trim_chars,
};
use crate::types::channel;
use crate::types::{Channel, PriorityScore};

verus! {

/// What the model is told to do.
pub const CLASSIFICATION_SYSTEM_PROMPT: &'static str = r#"You are an inbox classification assistant running locally on the user's device. Your job is to prioritize and categorize incoming messages.

You must respond with a single JSON object and nothing else. The schema is strict:

{
  "priority": <integer 1 to 5>,
  "category": <one of: "work", "personal", "finance", "family", "notifications", "newsletters", "spam">,
  "reasoning": <one short sentence explaining your choice>
}

Priority scale:
- 5 = urgent, needs action today (personal emergencies, hard deadlines, direct asks from family/key clients)
- 4 = important, action this week (replies needed from known contacts, meeting confirmations)
- 3 = normal (regular conversation, FYI)
- 2 = low (newsletters you subscribed to, non-urgent notifications)
- 1 = spam or irrelevant (promotional, unknown bulk senders, noise)

Use the "Sender context" section to identify who the sender is relative to the user's vault. Known contacts from the user's vault (especially family and work relationships) should generally score higher.

Use the "Relevant vault notes" section to understand project and topic context.

Use the "User profile" section to understand the user's languages, role, and life areas.

Do not include any text outside the JSON object. Do not wrap the JSON in code fences unless you absolutely cannot avoid it.
"#;

/// The line with the subject, where there is one.
pub open spec fn subject_line(subject: Seq<char>) -> Seq<char> {
    if text::blank(subject) {
        Seq::empty()
    } else {
        "Subject: "@ + subject + "\n"@
    }
}

/// What the model is asked about a message: where it is from, what it says,
/// what is known about it.
pub open spec fn classification_prompt(
    channel: Channel,
    sender_name: Seq<char>,
    sender_address: Seq<char>,
    subject: Seq<char>,
    body: Seq<char>,
    rag: RagContext,
) -> Seq<char> {
    "# Incoming message\n"@ + "Channel: "@ + channel::channel_name(channel) + "\n"@ + "From: "@
        + sender_name + " <"@ + sender_address + ">\n"@ + subject_line(subject)
        + "\nBody:\n"@ + text::trim(text::excerpt(body, 2000)) + "\n\n"@
        + rag::prompt_section(rag) + "\nClassify this message.\n"@
}

/// The line with the subject.
pub fn write_subject_line(subject: &str) -> (r: String)
    ensures
        r@ == subject_line(subject@),
{
    if is_blank(subject) {
        let r = String::new();
        proof {
            assert(r@ =~= Seq::empty());
        }
        r
    } else {
        let mut r = "Subject: ".to_owned();
        r.append(subject);
        r.append("\n");
        r
    }
}

/// What the model is asked about a message.
pub fn build_classification_user_prompt(
    channel: Channel,
    sender_name: &str,
    sender_address: &str,
    subject: &str,
    body: &str,
    rag: &RagContext,
) -> (r: String)
    ensures
        r@ == classification_prompt(
            channel,
            sender_name@,
            sender_address@,
            subject@,
            body@,
            *rag,
        ),
{
    let mut out = "# Incoming message\n".to_owned();
    out.append("Channel: ");
    out.append(channel.display_name());
    out.append("\n");
    out.append("From: ");
    out.append(sender_name);
    out.append(" <");
    out.append(sender_address);
    out.append(">\n");
    out.append(write_subject_line(subject).as_str());
    out.append("\nBody:\n");
    let v = to_chars(body);
    let excerpt = from_chars(trim_chars(excerpt_chars(v.as_slice(), 2000)));
    out.append(excerpt.as_str());
    out.append("\n\n");
    out.append(rag.to_prompt_section().as_str());
    out.append("\nClassify this message.\n");
    out
}

/// The fields of an answer, as they were read.
#[derive(Debug)]
pub struct RawResponse {
    pub priority: u8,
    pub category: String,
    pub reasoning: String,
}

/// The message for an answer without an object.
pub open spec fn no_object_text(raw: Seq<char>) -> Seq<char> {
    "no JSON object found in response: "@ + text::debug_form(raw)
}

/// The message for an object that is not an answer.
pub open spec fn schema_text(detail: Seq<char>) -> Seq<char> {
    "response JSON does not match schema: "@ + detail
}

/// The message for a priority that is none.
pub open spec fn priority_text(priority: nat) -> Seq<char> {
    "priority "@ + text::decimal(priority) + " out of range 1..=5"@
}

/// The message for a category that is none.
pub open spec fn unknown_category_text(category: Seq<char>) -> Seq<char> {
    "unknown category '"@ + category
        + "'; must be one of [\"work\", \"personal\", \"finance\", \"family\", \"notifications\", \"newsletters\", \"spam\"]"@
}

/// `r` is the error with this message.
pub open spec fn is_ai_error(r: Result<Classification, CoreError>, m: Seq<char>) -> bool {
    r is Err && (r->Err_0 matches CoreError::Ai(t) && t@ == m)
}

/// `s` names one of the categories.
pub open spec fn names_category(s: Seq<char>) -> bool {
    exists|c: Category| #[trigger] category::category_text(c) == category::category_key(s)
}

/// What comes of the fields of an answer: the first of them that is not right
/// decides on the error.
pub open spec fn classified_as(r: Result<Classification, CoreError>, a: RawResponse) -> bool {
    if !(1 <= a.priority <= 5) {
        is_ai_error(r, priority_text(a.priority as nat))
    } else if !names_category(a.category@) {
        is_ai_error(r, unknown_category_text(a.category@))
    } else if text::blank(a.reasoning@) {
        is_ai_error(r, "empty reasoning field"@)
    } else {
        &&& r is Ok
        &&& r->Ok_0.priority@ == a.priority
        &&& category::category_text(r->Ok_0.category) == category::category_key(a.category@)
        &&& r->Ok_0.reasoning@ == a.reasoning@
    }
}

/// The object in an answer: the first balanced block in it, without the code
/// fence round it.
pub fn response_object(raw: &str) -> (r: Result<String, CoreError>)
    ensures
        match json::first_object(json::unfenced(raw@)) {
            Some(o) => r is Ok && r->Ok_0@ == o,
            None => r is Err && (r->Err_0 matches CoreError::Ai(m) && m@ == no_object_text(raw@)),
        },
{
    let stripped = strip_fences(raw);
    match extract_first_json_object(stripped.as_str()) {
        Some(o) => Ok(o),
        None => {
            let mut m = "no JSON object found in response: ".to_owned();
            m.append(debug_text(raw).as_str());
            Err(CoreError::Ai(m))
        },
    }
}

/// The classification that the fields of an answer make.
pub fn check_response(a: RawResponse) -> (r: Result<Classification, CoreError>)
    ensures
        classified_as(r, a),
{
    let priority = match PriorityScore::new(a.priority) {
        Some(p) => p,
        None => {
            let mut m = "priority ".to_owned();
            m.append(decimal_string(a.priority as u128).as_str());
            m.append(" out of range 1..=5");
            return Err(CoreError::Ai(m));
        },
    };
    let category = match Category::from_str(a.category.as_str()) {
        Some(c) => c,
        None => {
            let mut m = "unknown category '".to_owned();
            m.append(a.category.as_str());
            m.append(
                "'; must be one of [\"work\", \"personal\", \"finance\", \"family\", \"notifications\", \"newsletters\", \"spam\"]",
            );
            return Err(CoreError::Ai(m));
        },
    };
    if is_blank(a.reasoning.as_str()) {
        return Err(CoreError::Ai("empty reasoning field".to_owned()));
    }
    Ok(Classification { priority, category, reasoning: a.reasoning })
}

/// The classification that an answer makes. `read` is what the object in it
/// was read as, or the message of the error; it matters only where there is an
/// object.
pub fn parse_classification_response(raw: &str, read: Result<RawResponse, String>) -> (r: Result<
    Classification,
    CoreError,
>)
    ensures
        match json::first_object(json::unfenced(raw@)) {
            None => is_ai_error(r, no_object_text(raw@)),
            Some(_) => match read {
                Err(e) => is_ai_error(r, schema_text(e@)),
                Ok(a) => classified_as(r, a),
            },
        },
{
    match response_object(raw) {
        Err(e) => Err(e),
        Ok(_) => match read {
            Err(e) => {
                let mut m = "response JSON does not match schema: ".to_owned();
                m.append(e.as_str());
                Err(CoreError::Ai(m))
            },
            Ok(a) => check_response(a),
        },
    }
}

} // verus!
