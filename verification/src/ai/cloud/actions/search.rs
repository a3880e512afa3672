//! Answers from the vault.
use vstd::prelude::*;
use vstd::string::StringExecFns;

use crate::ai::cloud::actions::common;
use crate::ai::cloud::actions::common::{answer_object, schema_error, DraftPlan, Outgoing};
use crate::ai::cloud::config;
use crate::ai::cloud::config::CloudAction;
use crate::ai::cloud::redactor;
use crate::ai::cloud::redactor::Redactor;
use crate::ai::json;
use crate::ai::llm::CompletionRequest;
use crate::ai::pipeline;
use crate::ai::pipeline::LogEntry;
use crate::ai::profile::UserProfile;
use crate::ai::rag;
use crate::ai::rag::{write_chunk_line, write_profile_section, RagContext};
use crate::error;
use crate::error::CoreError;
use crate::knowledge::retrieval::{RetrievalFilters, RetrievedChunk};
use crate::text;
use crate::text::{excerpt_chars, from_chars, is_blank, to_chars, trim_chars};

verus! {

/// What the model is told to do.
pub const SYSTEM_PROMPT: &'static str = r#"You answer natural-language questions over the user's personal knowledge vault. You will receive the user's query and up to 10 retrieved chunks from their vault.

You must respond with a single JSON object and nothing else, matching this schema:

{
  "answer":  <plain-text answer, 1-3 short paragraphs>,
  "sources": <array of vault file paths cited, e.g. ["01-Projects/Project X.md"]>
}

Only cite paths that appear in the provided chunks. If the chunks don't contain an answer, say so in the answer field and return an empty sources array.

Do not wrap the JSON in code fences unless absolutely necessary."#;

/// The search for the chunks of a query: the ten nearest, from any folder.
pub fn search_filters() -> (r: RetrievalFilters)
    ensures
        r.para_folders is None,
        r.top_k == Some(10usize),
{
    RetrievalFilters { para_folders: None, top_k: Some(10) }
}

/// The context by which the confidence in an answer is judged: the profile
/// alone.
pub fn search_context(profile: &UserProfile) -> (r: RagContext)
    ensures
        r.sender_name is None,
        r.sender_vault_path is None,
        r.topic_chunks@.len() == 0,
        r.user_profile_content@ == profile.content@,
{
    RagContext {
        sender_name: None,
        sender_vault_path: None,
        topic_chunks: Vec::new(),
        user_profile_content: profile.content.clone(),
    }
}

/// The lines about the chunks, with the start of each.
pub open spec fn found_lines(chunks: Seq<RetrievedChunk>) -> Seq<char>
    decreases chunks.len(),
{
    if chunks.len() == 0 {
        Seq::empty()
    } else {
        let c = chunks.last();
        found_lines(chunks.drop_last()) + rag::chunk_line(
            c.file_path@,
            c.section_heading,
            text::excerpt(text::trim(c.content@), 400),
        )
    }
}

/// What the model is asked.
pub open spec fn search_prompt(
    query: Seq<char>,
    chunks: Seq<RetrievedChunk>,
    profile: Seq<char>,
) -> Seq<char> {
    "# User query\n"@ + query + "\n\n# Retrieved vault chunks\n"@ + (if chunks.len() == 0 {
        "- (no retriever configured — answer from profile + general knowledge only)\n"@
    } else {
        found_lines(chunks)
    }) + "\n# User profile\n"@ + rag::profile_section(profile)
        + "\nAnswer the query using only the retrieved chunks.\n"@
}

/// What the model is asked, about the query as it leaves the machine.
pub fn search_request(
    query: &Outgoing,
    chunks: &Vec<RetrievedChunk>,
    profile: &UserProfile,
) -> (r: CompletionRequest)
    ensures
        r.system@ == SYSTEM_PROMPT@,
        r.user@ == search_prompt(query.text@, chunks@, profile.content@),
        r.max_tokens == 1024,
{
    let mut out = "# User query\n".to_owned();
    out.append(query.text.as_str());
    out.append("\n\n# Retrieved vault chunks\n");
    let mut found = String::new();
    if chunks.len() == 0 {
        found =
        "- (no retriever configured — answer from profile + general knowledge only)\n".to_owned();
    } else {
        proof {
            assert(found@ =~= Seq::empty());
            assert(chunks@.take(0) =~= Seq::empty());
        }
        for i in 0..chunks.len()
            invariant
                found@ == found_lines(chunks@.take(i as int)),
        {
            let c = &chunks[i];
            let v = to_chars(c.content.as_str());
            let part = from_chars(excerpt_chars(trim_chars(v.as_slice()), 400));
            let line = write_chunk_line(c.file_path.as_str(), &c.section_heading, part.as_str());
            found.append(line.as_str());
            proof {
                assert(chunks@.take(i + 1).drop_last() =~= chunks@.take(i as int));
            }
        }
        proof {
            assert(chunks@.take(chunks@.len() as int) =~= chunks@);
        }
    }
    out.append(found.as_str());
    out.append("\n# User profile\n");
    out.append(write_profile_section(profile.content.as_str()).as_str());
    out.append("\nAnswer the query using only the retrieved chunks.\n");
    CompletionRequest { system: SYSTEM_PROMPT, user: out, max_tokens: 1024 }
}

/// The fields of an answer.
#[derive(Debug)]
pub struct ParsedAnswer {
    pub answer: String,
    pub sources: Vec<String>,
}

/// The answer. `read` is what the object in it was read as, or the message of
/// the error; it matters only where there is an object.
pub fn parse_response(raw: &str, read: Result<ParsedAnswer, String>) -> (r: Result<
    ParsedAnswer,
    CoreError,
>)
    ensures
        match json::first_object(json::unfenced(raw@)) {
            None => r is Err && common::is_cloud_error(r->Err_0, common::no_object_text(raw@)),
            Some(_) => match read {
                Err(e) => r is Err && common::is_cloud_error(
                    r->Err_0,
                    common::schema_text(e@),
                ),
                Ok(a) => if text::blank(a.answer@) {
                    r is Err && common::is_cloud_error(r->Err_0, "empty answer field"@)
                } else {
                    r is Ok && r->Ok_0 == a
                },
            },
        },
{
    match answer_object(raw) {
        Err(e) => Err(e),
        Ok(_) => match read {
            Err(e) => Err(schema_error(e.as_str())),
            Ok(a) => {
                if is_blank(a.answer.as_str()) {
                    Err(CoreError::Cloud("empty answer field".to_owned()))
                } else {
                    Ok(a)
                }
            },
        },
    }
}

/// What is stored of an answer. It is tied to no message, and logged under the
/// query as the user wrote it.
pub fn finish_search(query: &str, sent: &Outgoing, parsed: &ParsedAnswer) -> (r: DraftPlan)
    ensures
        r.message_id is None,
        r.action == CloudAction::SmartSearch,
        r.input_redacted@ == sent.text@,
        redactor::is_restored(r.output@, parsed.answer@, sent.map@),
        pipeline::logs(
            r.log,
            config::action_text(CloudAction::SmartSearch),
            "query"@,
            query@,
            r.output@,
        ),
{
    let output = Redactor::un_redact(parsed.answer.as_str(), &sent.map);
    DraftPlan {
        message_id: None,
        action: CloudAction::SmartSearch,
        input_redacted: sent.text.clone(),
        output: output.clone(),
        log: LogEntry {
            action_type: CloudAction::SmartSearch.as_str().to_owned(),
            entity_type: "query",
            entity_id: query.to_owned(),
            description: output,
        },
    }
}

/// What is logged where the model failed, or answered nothing that can be
/// used.
pub fn search_failure(query: &str, e: &CoreError) -> (r: LogEntry)
    ensures
        pipeline::logs(
            r,
            "smart_search_failed"@,
            "query"@,
            query@,
            error::error_text(*e),
        ),
{
    LogEntry {
        action_type: "smart_search_failed".to_owned(),
        entity_type: "query",
        entity_id: query.to_owned(),
        description: e.message(),
    }
}

} // verus!
