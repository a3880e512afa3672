//! What a prompt says about the world round a message.
use vstd::prelude::*;
use vstd::string::StringExecFns;

use crate::ai::profile::UserProfile;
use crate::knowledge::retrieval::{RetrievalFilters, RetrievedChunk};
use crate::text;
use crate::text::{excerpt_chars, from_chars, is_blank, to_chars, trim_chars, trim_str};

verus! {

/// What is known about the sender, the topic and the user.
#[derive(Debug)]
pub struct RagContext {
    pub sender_name: Option<String>,
    pub sender_vault_path: Option<String>,
    pub topic_chunks: Vec<ContextChunk>,
    pub user_profile_content: String,
}

/// A chunk of the vault that bears on the message.
#[derive(Debug)]
pub struct ContextChunk {
    pub file_path: String,
    pub heading: Option<String>,
    pub content: String,
}

/// The lines about the sender.
pub open spec fn sender_section(name: Option<String>, path: Option<String>) -> Seq<char> {
    match (name, path) {
        (Some(n), Some(p)) => "- Known contact: "@ + n@ + " (profile: "@ + p@ + ")\n"@,
        _ => "- Unknown sender — no vault profile match.\n"@,
    }
}

/// A heading, or what stands for none.
pub open spec fn heading_or_none(heading: Option<String>) -> Seq<char> {
    match heading {
        Some(h) => h@,
        None => "(no heading)"@,
    }
}

/// A line about a chunk: where it is from, and a text of it.
pub open spec fn chunk_line(
    path: Seq<char>,
    heading: Option<String>,
    content: Seq<char>,
) -> Seq<char> {
    "- ["@ + path + " — "@ + heading_or_none(heading) + "] "@ + content + "\n"@
}

/// The lines about the chunks.
pub open spec fn chunk_lines(chunks: Seq<ContextChunk>) -> Seq<char>
    decreases chunks.len(),
{
    if chunks.len() == 0 {
        Seq::empty()
    } else {
        let c = chunks.last();
        chunk_lines(chunks.drop_last()) + chunk_line(
            c.file_path@,
            c.heading,
            text::trim(c.content@),
        )
    }
}

/// The lines about the topic.
pub open spec fn topic_section(chunks: Seq<ContextChunk>) -> Seq<char> {
    if chunks.len() == 0 {
        "- (no vault content matched this message)\n"@
    } else {
        chunk_lines(chunks)
    }
}

/// The lines about the user, which end with a newline.
pub open spec fn profile_section(profile: Seq<char>) -> Seq<char> {
    if text::blank(profile) {
        "- (no profile configured)\n"@
    } else if profile.last() == '\n' {
        profile
    } else {
        profile + "\n"@
    }
}

/// The section of a prompt that holds the context.
pub open spec fn prompt_section(c: RagContext) -> Seq<char> {
    "# Sender context (from vault)\n"@ + sender_section(c.sender_name, c.sender_vault_path)
        + "\n"@ + "# Relevant vault notes\n"@ + topic_section(c.topic_chunks@) + "\n"@
        + "# User profile\n"@ + profile_section(c.user_profile_content@)
}

/// The line about a chunk.
pub fn write_chunk_line(path: &str, heading: &Option<String>, content: &str) -> (r: String)
    ensures
        r@ == chunk_line(path@, *heading, content@),
{
    let mut out = "- [".to_owned();
    out.append(path);
    out.append(" — ");
    match heading {
        Some(h) => {
            out.append(h.as_str());
        },
        None => {
            out.append("(no heading)");
        },
    }
    out.append("] ");
    out.append(content);
    out.append("\n");
    out
}

/// The lines about the user.
pub fn write_profile_section(profile: &str) -> (r: String)
    ensures
        r@ == profile_section(profile@),
{
    if is_blank(profile) {
        return "- (no profile configured)\n".to_owned();
    }
    let mut out = profile.to_owned();
    let v = to_chars(profile);
    if v[v.len() - 1] != '\n' {
        out.append("\n");
    }
    out
}

impl RagContext {
    /// The context as a section of a prompt.
    pub fn to_prompt_section(&self) -> (r: String)
        ensures
            r@ == prompt_section(*self),
    {
        let mut out = "# Sender context (from vault)\n".to_owned();
        let mut sender = String::new();
        match (&self.sender_name, &self.sender_vault_path) {
            (Some(name), Some(path)) => {
                sender = "- Known contact: ".to_owned();
                sender.append(name.as_str());
                sender.append(" (profile: ");
                sender.append(path.as_str());
                sender.append(")\n");
            },
            _ => {
                sender = "- Unknown sender — no vault profile match.\n".to_owned();
            },
        }
        out.append(sender.as_str());
        out.append("\n");
        out.append("# Relevant vault notes\n");
        let mut topic = String::new();
        if self.topic_chunks.len() == 0 {
            topic = "- (no vault content matched this message)\n".to_owned();
        } else {
            proof {
                assert(topic@ =~= Seq::empty());
                assert(self.topic_chunks@.take(0) =~= Seq::empty());
            }
            for i in 0..self.topic_chunks.len()
                invariant
                    topic@ == chunk_lines(self.topic_chunks@.take(i as int)),
            {
                let c = &self.topic_chunks[i];
                let content = trim_str(c.content.as_str());
                let line = write_chunk_line(c.file_path.as_str(), &c.heading, content.as_str());
                topic.append(line.as_str());
                proof {
                    assert(self.topic_chunks@.take(i + 1).drop_last()
                        =~= self.topic_chunks@.take(i as int));
                }
            }
            proof {
                assert(self.topic_chunks@.take(self.topic_chunks@.len() as int)
                    =~= self.topic_chunks@);
            }
        }
        out.append(topic.as_str());
        out.append("\n");
        out.append("# User profile\n");
        let profile = write_profile_section(self.user_profile_content.as_str());
        out.append(profile.as_str());
        out
    }
}

/// `c` is what is kept of a chunk that a search found.
pub open spec fn kept_of(c: ContextChunk, found: RetrievedChunk) -> bool {
    c.file_path == found.file_path && c.heading == found.section_heading && c.content
        == found.content
}

/// The context of a message: the sender as the vault knows them, the chunks
/// that a search found, and the profile.
pub fn build_rag_context(
    sender: Option<(String, String)>,
    found: Vec<RetrievedChunk>,
    profile: &UserProfile,
) -> (r: RagContext)
    ensures
        match sender {
            Some((name, path)) => r.sender_name == Some(name) && r.sender_vault_path == Some(path),
            None => r.sender_name is None && r.sender_vault_path is None,
        },
        r.topic_chunks@.len() == found@.len(),
        forall|i: int| 0 <= i < found@.len() ==> kept_of(#[trigger] r.topic_chunks@[i], found@[i]),
        r.user_profile_content@ == profile.content@,
{
    let mut chunks: Vec<ContextChunk> = Vec::new();
    for i in 0..found.len()
        invariant
            chunks@.len() == i,
            forall|k: int| 0 <= k < i ==> kept_of(#[trigger] chunks@[k], found@[k]),
    {
        let c = &found[i];
        chunks.push(
            ContextChunk {
                file_path: c.file_path.clone(),
                heading: crate::text::copy_option(&c.section_heading),
                content: c.content.clone(),
            },
        );
    }
    let (sender_name, sender_vault_path) = match sender {
        Some((name, path)) => (Some(name), Some(path)),
        None => (None, None),
    };
    RagContext {
        sender_name,
        sender_vault_path,
        topic_chunks: chunks,
        user_profile_content: profile.content.clone(),
    }
}

/// The query that finds chunks for a message: its subject twice, so that it
/// weighs more, and the start of its body.
pub open spec fn retrieval_query(subject: Seq<char>, body: Seq<char>) -> Seq<char> {
    let s = text::trim(subject);
    let b = text::excerpt(text::trim(body), 500);
    if s.len() == 0 {
        b
    } else {
        s + "\n"@ + s + "\n"@ + b
    }
}

/// The query that finds chunks for a message.
pub fn build_retrieval_query(subject: &str, body: &str) -> (r: String)
    ensures
        r@ == retrieval_query(subject@, body@),
{
    let sv = to_chars(subject);
    let s = trim_chars(sv.as_slice());
    let bv = to_chars(body);
    let b = from_chars(excerpt_chars(trim_chars(bv.as_slice()), 500));
    if s.len() == 0 {
        b
    } else {
        let mut out = from_chars(s);
        let again = from_chars(s);
        out.append("\n");
        out.append(again.as_str());
        out.append("\n");
        out.append(b.as_str());
        out
    }
}

/// What restricts the search for the chunks that a prompt holds: five of them,
/// from any folder.
pub fn rag_filters() -> (r: RetrievalFilters)
    ensures
        r.para_folders is None,
        r.top_k == Some(5usize),
{
    RetrievalFilters { para_folders: None, top_k: Some(5) }
}

/// A query has at most 500 characters of the body beside the subject.
pub proof fn retrieval_query_is_bounded(subject: Seq<char>, body: Seq<char>)
    ensures
        retrieval_query(subject, body).len() <= 2 * text::trim(subject).len() + 2 + 500,
{
    reveal_strlit("\n");
}

} // verus!
