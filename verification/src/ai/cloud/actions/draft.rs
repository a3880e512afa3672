//! Drafts of replies.
use vstd::prelude::*;
use vstd::string::StringExecFns;

use crate::ai::cloud::actions::common;
use crate::ai::cloud::actions::common::{answer_object, schema_error, DraftPlan, Outgoing};
use crate::ai::cloud::config;
use crate::ai::cloud::config::CloudAction;
use crate::ai::cloud::redactor;
use crate::ai::cloud::redactor::Redactor;
use crate::ai::json;
use crate::ai::llm::CompletionRequest;
use crate::ai::pipeline;
use crate::ai::pipeline::LogEntry;
use crate::ai::prompts;
use crate::ai::prompts::write_subject_line;
use crate::ai::rag;
use crate::ai::rag::RagContext;
use crate::error;
use crate::error::{joined, CoreError};
use crate::id;
use crate::id::Uuid;
use crate::pattern;
use crate::pattern::{remove_matches, TOKEN_PATTERN};
use crate::text;
use crate::text::{copy_or_empty, from_chars, is_blank, str_eq, to_chars, trim_str};
use crate::types::channel;
use crate::types::contact;
use crate::types::{Channel, Contact, Message};

verus! {

/// What the model is told to do.
pub const SYSTEM_PROMPT: &'static str = r#"You are drafting a reply to an incoming message on behalf of the user. The user will review your draft before sending — do not invent commitments, prices, or decisions.

You must respond with a single JSON object and nothing else, matching this schema:

{
  "draft":    <plain-text reply, no greeting signature unless the thread already uses one>,
  "language": <one of: "en", "fr", "de">
}

Match the language of the incoming message unless the user profile indicates a strong language preference, in which case follow the profile. Keep the draft concise: one or two paragraphs maximum.

Do not wrap the JSON in code fences unless absolutely necessary."#;

/// What a draft starts from.
#[derive(Debug)]
pub struct DraftInput {
    pub channel: Channel,
    pub sender_address: String,
    pub subject: String,
    pub body: String,
}

/// What a draft starts from: the sender's address on the message's channel, and
/// what the message says.
pub fn draft_input(message: &Message, sender: &Contact) -> (r: DraftInput)
    ensures
        r.channel == message.channel,
        r.sender_address@ == contact::address_or_empty(sender.identities@, message.channel),
        r.subject@ == text::text_or_empty(message.content.subject),
        r.body@ == text::text_or_empty(message.content.text),
{
    DraftInput {
        channel: message.channel,
        sender_address: sender.address_or_empty(message.channel),
        subject: copy_or_empty(&message.content.subject),
        body: copy_or_empty(&message.content.text),
    }
}

/// The query that finds chunks for a draft.
pub open spec fn chunk_query(subject: Seq<char>, body: Seq<char>) -> Seq<char> {
    subject + " "@ + body
}

/// The query that finds chunks for a draft.
pub fn build_chunk_query(subject: &str, body: &str) -> (r: String)
    ensures
        r@ == chunk_query(subject@, body@),
{
    let mut r = joined(subject, " ");
    r.append(body);
    r
}

/// What the model is asked.
pub open spec fn draft_prompt(
    channel: Channel,
    sender: Seq<char>,
    subject: Seq<char>,
    body: Seq<char>,
    rag: RagContext,
) -> Seq<char> {
    "# Incoming message\n"@ + "Channel: "@ + channel::channel_name(channel) + "\n"@ + "From: "@
        + sender + "\n"@ + prompts::subject_line(subject) + "\nBody:\n"@ + text::trim(body)
        + "\n\n"@ + rag::prompt_section(rag) + "\nDraft a reply to this message.\n"@
}

/// What the model is asked, about the body as it leaves the machine.
pub fn draft_request(input: &DraftInput, body: &Outgoing, rag: &RagContext) -> (r:
    CompletionRequest)
    ensures
        r.system@ == SYSTEM_PROMPT@,
        r.user@ == draft_prompt(
            input.channel,
            input.sender_address@,
            input.subject@,
            body.text@,
            *rag,
        ),
        r.max_tokens == 1024,
{
    let mut out = "# Incoming message\n".to_owned();
    out.append("Channel: ");
    out.append(input.channel.display_name());
    out.append("\n");
    out.append("From: ");
    out.append(input.sender_address.as_str());
    out.append("\n");
    out.append(write_subject_line(input.subject.as_str()).as_str());
    out.append("\nBody:\n");
    out.append(trim_str(body.text.as_str()).as_str());
    out.append("\n\n");
    out.append(rag.to_prompt_section().as_str());
    out.append("\nDraft a reply to this message.\n");
    CompletionRequest { system: SYSTEM_PROMPT, user: out, max_tokens: 1024 }
}

/// The fields of an answer.
#[derive(Debug)]
pub struct ParsedDraft {
    pub draft: String,
    pub language: String,
}

/// The languages in which a draft can be.
pub open spec fn allowed_language(l: Seq<char>) -> bool {
    l == "en"@ || l == "fr"@ || l == "de"@
}

/// The message for a language that is none of them.
pub open spec fn unknown_language_text(l: Seq<char>) -> Seq<char> {
    "unknown language '"@ + l + "'; must be one of [\"en\", \"fr\", \"de\"]"@
}

/// What comes of the fields of an answer.
pub open spec fn draft_read_as(r: Result<ParsedDraft, CoreError>, a: ParsedDraft) -> bool {
    if text::blank(a.draft@) {
        r is Err && common::is_cloud_error(r->Err_0, "empty draft field"@)
    } else if !allowed_language(a.language@) {
        r is Err && common::is_cloud_error(r->Err_0, unknown_language_text(a.language@))
    } else {
        r is Ok && r->Ok_0 == a
    }
}

/// The draft in an answer. `read` is what the object in it was read as, or the
/// message of the error; it matters only where there is an object.
pub fn parse_response(raw: &str, read: Result<ParsedDraft, String>) -> (r: Result<
    ParsedDraft,
    CoreError,
>)
    ensures
        match json::first_object(json::unfenced(raw@)) {
            None => r is Err && common::is_cloud_error(r->Err_0, common::no_object_text(raw@)),
            Some(_) => match read {
                Err(e) => r is Err && common::is_cloud_error(
                    r->Err_0,
                    common::schema_text(e@),
                ),
                Ok(a) => draft_read_as(r, a),
            },
        },
{
    match answer_object(raw) {
        Err(e) => Err(e),
        Ok(_) => match read {
            Err(e) => Err(schema_error(e.as_str())),
            Ok(a) => {
                if is_blank(a.draft.as_str()) {
                    return Err(CoreError::Cloud("empty draft field".to_owned()));
                }
                let l = a.language.as_str();
                if !(str_eq(l, "en") || str_eq(l, "fr") || str_eq(l, "de")) {
                    let mut m = joined("unknown language '", l);
                    m.append("'; must be one of [\"en\", \"fr\", \"de\"]");
                    return Err(CoreError::Cloud(m));
                }
                Ok(a)
            },
        },
    }
}

/// What the user sees of a draft: the originals put back, and tokens that stand
/// for nothing taken out.
pub open spec fn shown_draft(
    out: Seq<char>,
    draft: Seq<char>,
    pairs: Seq<(Seq<char>, Seq<char>)>,
) -> bool {
    exists|restored: Seq<char>| #[trigger]
        redactor::is_restored(restored, draft, pairs) && out == pattern::without_matches(
            TOKEN_PATTERN@,
            restored,
        )
}

/// What is stored of a draft that the model made for a message.
pub fn finish_draft(message_id: Uuid, body: Outgoing, parsed: &ParsedDraft) -> (r: DraftPlan)
    ensures
        r.message_id == Some(message_id),
        r.action == CloudAction::DraftReply,
        r.input_redacted@ == body.text@,
        shown_draft(r.output@, parsed.draft@, body.map@),
        pipeline::logs(
            r.log,
            config::action_text(CloudAction::DraftReply),
            "message"@,
            id::uuid_text(message_id),
            "language="@ + parsed.language@,
        ),
{
    let restored = Redactor::un_redact(parsed.draft.as_str(), &body.map);
    let chars = to_chars(restored.as_str());
    let kept = remove_matches(chars.as_slice(), TOKEN_PATTERN);
    DraftPlan {
        message_id: Some(message_id),
        action: CloudAction::DraftReply,
        input_redacted: body.text,
        output: from_chars(kept.as_slice()),
        log: LogEntry {
            action_type: CloudAction::DraftReply.as_str().to_owned(),
            entity_type: "message",
            entity_id: message_id.text(),
            description: joined("language=", parsed.language.as_str()),
        },
    }
}

/// What is logged where the model failed, or answered nothing that can be
/// used.
pub fn draft_failure(message_id: Uuid, e: &CoreError) -> (r: LogEntry)
    ensures
        pipeline::logs(
            r,
            "draft_reply_failed"@,
            "message"@,
            id::uuid_text(message_id),
            error::error_text(*e),
        ),
{
    LogEntry {
        action_type: "draft_reply_failed".to_owned(),
        entity_type: "message",
        entity_id: message_id.text(),
        description: e.message(),
    }
}

} // verus!
