//! Summaries of threads.
use vstd::prelude::*;
use vstd::string::StringExecFns;

use crate::ai::cloud::actions::common;
use crate::ai::cloud::actions::common::{answer_object, schema_error, DraftPlan, Outgoing};
use crate::ai::cloud::config;
use crate::ai::cloud::config::CloudAction;
use crate::ai::cloud::redactor;
use crate::ai::cloud::redactor::Redactor;
use crate::ai::json;
use crate::ai::llm::CompletionRequest;
use crate::ai::pipeline;
use crate::ai::pipeline::LogEntry;
use crate::ai::rag;
use crate::ai::rag::RagContext;
use crate::error;
use crate::error::{joined, CoreError};
use crate::id;
use crate::id::Uuid;
use crate::store::messages;
use crate::store::messages::list_messages_in_thread;
use crate::store::sql;
use crate::store::sql::{Statement, ValueText};
use crate::text;
use crate::text::{excerpt_str, is_blank, trim_str};
use crate::time;
use crate::types::contact;
use crate::types::{Contact, Message};

verus! {

/// What the model is told to do.
pub const SYSTEM_PROMPT: &'static str = r#"You are a conversation summarizer running with user consent over a single thread.

You must respond with a single JSON object and nothing else, matching this schema:

{
  "summary": <1-3 sentence plain-text summary of the thread>,
  "language": <one of: "en", "fr", "de">
}

Summarize what the thread is actually about, what was decided, and any open question. Do not add commentary or apologies. Do not wrap the JSON in code fences unless absolutely necessary."#;

/// The most messages of a thread that are asked for: as many as can be, so that
/// every message of a thread is summarized.
pub const MAX_MESSAGES: u32 = 0xffff_ffff;

/// A message as a line of a thread.
pub open spec fn message_line(m: Message) -> Seq<char> {
    "["@ + time::rfc3339_text(m.timestamp@.0 as i64, m.timestamp@.1 as u32) + "] "@ + (
    match m.content.subject {
        Some(s) => "(subject: "@ + s@ + ") "@,
        None => Seq::empty(),
    }) + (match m.content.text {
        Some(t) => text::trim(t@),
        None => Seq::empty(),
    }) + "\n"@
}

/// A thread as a text.
pub open spec fn thread_text(messages: Seq<Message>) -> Seq<char>
    decreases messages.len(),
{
    if messages.len() == 0 {
        Seq::empty()
    } else {
        thread_text(messages.drop_last()) + message_line(messages.last())
    }
}

fn write_message_line(m: &Message) -> (r: String)
    ensures
        r@ == message_line(*m),
{
    let mut out = "[".to_owned();
    out.append(m.timestamp.rfc3339().as_str());
    out.append("] ");
    let ghost head = out@;
    if let Some(s) = &m.content.subject {
        let mut part = joined("(subject: ", s.as_str());
        part.append(") ");
        out.append(part.as_str());
    } else {
        proof {
            assert(out@ =~= head + Seq::empty());
        }
    }
    let ghost head = out@;
    if let Some(t) = &m.content.text {
        out.append(trim_str(t.as_str()).as_str());
    } else {
        proof {
            assert(out@ =~= head + Seq::empty());
        }
    }
    out.append("\n");
    out
}

/// The thread as a text, one message to a line.
pub fn render_thread_as_text(messages: &Vec<Message>) -> (r: String)
    ensures
        r@ == thread_text(messages@),
{
    let mut out = String::new();
    proof {
        assert(out@ =~= Seq::empty());
        assert(messages@.take(0) =~= Seq::empty());
    }
    for i in 0..messages.len()
        invariant
            out@ == thread_text(messages@.take(i as int)),
    {
        out.append(write_message_line(&messages[i]).as_str());
        proof {
            assert(messages@.take(i + 1).drop_last() =~= messages@.take(i as int));
        }
    }
    proof {
        assert(messages@.take(messages@.len() as int) =~= messages@);
    }
    out
}

/// The message for a thread without messages.
pub open spec fn empty_thread_text(thread_id: Uuid) -> Seq<char> {
    "cannot summarize empty thread "@ + id::uuid_text(thread_id)
}

/// The messages come in the order of their times.
pub open spec fn oldest_first(messages: Seq<Message>) -> bool {
    forall|i: int, j: int|
        0 <= i <= j < messages.len() ==> !time::later(
            (#[trigger] messages[i]).timestamp@,
            (#[trigger] messages[j]).timestamp@,
        )
}

/// The message to which a summary is tied: the last of the thread, which is the
/// newest where the oldest comes first.
pub fn anchor_message(messages: &Vec<Message>, thread_id: Uuid) -> (r: Result<usize, CoreError>)
    ensures
        match r {
            Ok(i) => {
                &&& messages@.len() > 0
                &&& i == messages@.len() - 1
                &&& oldest_first(messages@) ==> forall|k: int|
                    0 <= k < messages@.len() ==> !time::later(
                        (#[trigger] messages@[k]).timestamp@,
                        messages@[i as int].timestamp@,
                    )
            },
            Err(e) => messages@.len() == 0 && common::is_cloud_error(
                e,
                empty_thread_text(thread_id),
            ),
        },
{
    if messages.len() == 0 {
        Err(
            CoreError::Cloud(
                joined("cannot summarize empty thread ", thread_id.text().as_str()),
            ),
        )
    } else {
        Ok(messages.len() - 1)
    }
}

/// The statement for the messages that are summarized: all of the thread, the
/// oldest first.
pub fn thread_statement(thread_id: Uuid) -> (r: Statement)
    ensures
        sql::says(
            r,
            messages::SELECT_MESSAGES@
                + " WHERE thread_id = ?1 ORDER BY timestamp ASC LIMIT ?2"@,
            seq![
                ValueText::Text(id::uuid_text(thread_id)),
                ValueText::Integer(u32::MAX as int),
            ],
        ),
{
    list_messages_in_thread(thread_id, MAX_MESSAGES)
}

/// The address of a message's sender on its channel, where the contact can be
/// read and has one.
pub fn resolve_sender_address(sender: Result<Contact, CoreError>, message: &Message) -> (r: Option<
    String,
>)
    ensures
        match sender {
            Ok(c) => {
                let a = contact::address_on(c.identities@, message.channel, 0);
                (r is Some <==> a is Some) && (r is Some ==> r->0@ == a->0)
            },
            Err(_) => r is None,
        },
{
    match sender {
        Ok(c) => c.address_on(message.channel),
        Err(_) => None,
    }
}

/// What the model is asked.
pub open spec fn summary_prompt(thread: Seq<char>, rag: RagContext) -> Seq<char> {
    "# Conversation to summarize\n\n"@ + text::trim(thread) + "\n\n"@ + rag::prompt_section(rag)
        + "\nSummarize this conversation.\n"@
}

/// What the model is asked, about the thread as it leaves the machine.
pub fn summary_request(thread: &Outgoing, rag: &RagContext) -> (r: CompletionRequest)
    ensures
        r.system@ == SYSTEM_PROMPT@,
        r.user@ == summary_prompt(thread.text@, *rag),
        r.max_tokens == 512,
{
    let mut out = "# Conversation to summarize\n\n".to_owned();
    out.append(trim_str(thread.text.as_str()).as_str());
    out.append("\n\n");
    out.append(rag.to_prompt_section().as_str());
    out.append("\nSummarize this conversation.\n");
    CompletionRequest { system: SYSTEM_PROMPT, user: out, max_tokens: 512 }
}

/// The fields of an answer.
#[derive(Debug)]
pub struct ParsedSummary {
    pub summary: String,
    pub language: String,
}

/// The summary in an answer. `read` is what the object in it was read as, or
/// the message of the error; it matters only where there is an object.
pub fn parse_response(raw: &str, read: Result<ParsedSummary, String>) -> (r: Result<
    ParsedSummary,
    CoreError,
>)
    ensures
        match json::first_object(json::unfenced(raw@)) {
            None => r is Err && common::is_cloud_error(r->Err_0, common::no_object_text(raw@)),
            Some(_) => match read {
                Err(e) => r is Err && common::is_cloud_error(
                    r->Err_0,
                    common::schema_text(e@),
                ),
                Ok(a) => if text::blank(a.summary@) {
                    r is Err && common::is_cloud_error(r->Err_0, "empty summary field"@)
                } else {
                    r is Ok && r->Ok_0 == a
                },
            },
        },
{
    match answer_object(raw) {
        Err(e) => Err(e),
        Ok(_) => match read {
            Err(e) => Err(schema_error(e.as_str())),
            Ok(a) => {
                if is_blank(a.summary.as_str()) {
                    Err(CoreError::Cloud("empty summary field".to_owned()))
                } else {
                    Ok(a)
                }
            },
        },
    }
}

/// What is stored of a summary, tied to the newest message of the thread.
pub fn finish_summary(
    thread_id: Uuid,
    anchor_id: Uuid,
    thread: &Outgoing,
    parsed: &ParsedSummary,
) -> (r: DraftPlan)
    ensures
        r.message_id == Some(anchor_id),
        r.action == CloudAction::SummarizeThread,
        r.input_redacted@ == text::excerpt(thread.text@, 2000),
        redactor::is_restored(r.output@, parsed.summary@, thread.map@),
        pipeline::logs(
            r.log,
            config::action_text(CloudAction::SummarizeThread),
            "thread"@,
            id::uuid_text(thread_id),
            r.output@,
        ),
{
    let output = Redactor::un_redact(parsed.summary.as_str(), &thread.map);
    DraftPlan {
        message_id: Some(anchor_id),
        action: CloudAction::SummarizeThread,
        input_redacted: excerpt_str(thread.text.as_str(), 2000),
        output: output.clone(),
        log: LogEntry {
            action_type: CloudAction::SummarizeThread.as_str().to_owned(),
            entity_type: "thread",
            entity_id: thread_id.text(),
            description: output,
        },
    }
}

/// What is logged where the model failed, or answered nothing that can be
/// used.
pub fn summary_failure(thread_id: Uuid, e: &CoreError) -> (r: LogEntry)
    ensures
        pipeline::logs(
            r,
            "summarize_thread_failed"@,
            "thread"@,
            id::uuid_text(thread_id),
            error::error_text(*e),
        ),
{
    LogEntry {
        action_type: "summarize_thread_failed".to_owned(),
        entity_type: "thread",
        entity_id: thread_id.text(),
        description: e.message(),
    }
}

/// The error that the caller sees where the model failed.
pub fn wrap_provider_error(e: &CoreError) -> (r: CoreError)
    ensures
        common::is_cloud_error(r, error::error_text(*e)),
{
    CoreError::Cloud(e.message())
}

// ---------------------------------------------------------------------------
// Laws
// ---------------------------------------------------------------------------

/// Every message has its line in the text of its thread: where it starts.
proof fn lemma_line_in_thread(messages: Seq<Message>, i: int) -> (p: int)
    requires
        0 <= i < messages.len(),
    ensures
        text::occurs_at(thread_text(messages), message_line(messages[i]), p),
    decreases messages.len(),
{
    let before = thread_text(messages.drop_last());
    let all = thread_text(messages);
    let line = message_line(messages[i]);
    if i == messages.len() - 1 {
        assert(all.subrange(before.len() as int, all.len() as int) =~= line);
        before.len() as int
    } else {
        let p = lemma_line_in_thread(messages.drop_last(), i);
        assert(messages.drop_last()[i] == messages[i]);
        assert(all.subrange(p, p + line.len()) =~= before.subrange(p, p + line.len()));
        p
    }
}

/// The text of a thread with messages starts with a bracket.
proof fn lemma_thread_start(messages: Seq<Message>)
    requires
        messages.len() > 0,
    ensures
        thread_text(messages).len() > 0,
        thread_text(messages)[0] == '[',
    decreases messages.len(),
{
    reveal_strlit("[");
    let before = messages.drop_last();
    if before.len() > 0 {
        lemma_thread_start(before);
    } else {
        assert(thread_text(before).len() == 0);
        assert(message_line(messages.last())[0] == "["@[0]);
    }
}

/// What every message of a thread says stands in what the model is asked, where the
/// thread leaves the machine as it is.
pub proof fn every_message_is_summarized(messages: Seq<Message>, rag: RagContext, i: int)
    requires
        0 <= i < messages.len(),
        messages[i].content.text is Some,
    ensures
        exists|p: int| #[trigger]
            text::occurs_at(
                summary_prompt(thread_text(messages), rag),
                text::trim(messages[i].content.text->0@),
                p,
            ),
{
    let thread = thread_text(messages);
    let said = text::trim(messages[i].content.text->0@);
    let line = message_line(messages[i]);
    let p = lemma_line_in_thread(messages, i);
    reveal_strlit("\n");
    let q = line.len() - 1 - said.len();
    assert(line.subrange(q, q + said.len()) =~= said);
    let at = p + q;
    assert(thread.subrange(at, at + said.len()) =~= said) by {
        assert forall|k: int| 0 <= k < said.len() implies thread[at + k] == said[k] by {
            assert(thread.subrange(p, p + line.len())[q + k] == line[q + k]);
            assert(line.subrange(q, q + said.len())[k] == said[k]);
        }
    }
    lemma_thread_start(messages);
    text::lemma_first_visible(thread, 0);
    assert(text::trim_start(thread) =~= thread);
    text::lemma_visible_end_props(thread);
    let shown = text::trim(thread);
    if said.len() > 0 {
        let u = text::trim_start(messages[i].content.text->0@);
        text::lemma_visible_end_props(u);
        assert(said.last() == u[text::visible_end(u) - 1]);
        assert(thread[at + said.len() - 1] == said.last());
        assert(at + said.len() <= text::visible_end(thread));
        assert(shown.subrange(at, at + said.len()) =~= said);
    }
    let head = "# Conversation to summarize\n\n"@;
    let prompt = summary_prompt(thread, rag);
    let start = if said.len() > 0 {
        head.len() + at
    } else {
        0
    };
    assert(prompt.subrange(start, start + said.len()) =~= said);
    assert(text::occurs_at(prompt, said, start));
}

} // verus!
