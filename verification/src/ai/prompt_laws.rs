//! What holds of prompts, whatever they are about.
use vstd::prelude::*;

use crate::ai::cloud::actions::draft;
use crate::ai::cloud::actions::search;
use crate::ai::cloud::actions::summarize;
use crate::ai::json;
use crate::ai::profile;
use crate::ai::prompts;
use crate::ai::rag;
use crate::ai::rag::{ContextChunk, RagContext};
use crate::knowledge::retrieval::RetrievedChunk;
use crate::text;
use crate::text_laws;
use crate::time;
use crate::types::channel;
use crate::types::{Channel, Message};

verus! {

// ---------------------------------------------------------------------------
// Texts in texts
// ---------------------------------------------------------------------------

/// `t` stands somewhere in `s`.
pub open spec fn holds(s: Seq<char>, t: Seq<char>) -> bool {
    exists|p: int| #[trigger] text::occurs_at(s, t, p)
}

/// `t` and `u` stand in `s`, the one before the other.
pub open spec fn holds_in_turn(s: Seq<char>, t: Seq<char>, u: Seq<char>) -> bool {
    exists|p: int, q: int|
        #![trigger text::occurs_at(s, t, p), text::occurs_at(s, u, q)]
        text::occurs_at(s, t, p) && text::occurs_at(s, u, q) && p + t.len() <= q
}

proof fn lemma_part(a: Seq<char>, b: Seq<char>, c: Seq<char>)
    ensures
        text::occurs_at(a + b + c, b, a.len() as int),
        holds(a + b + c, b),
{
    let s = a + b + c;
    assert(s.subrange(a.len() as int, (a.len() + b.len()) as int) =~= b);
}

/// Each of seven parts stands in their sum.
proof fn lemma_seven_parts(
    a: Seq<char>,
    b: Seq<char>,
    c: Seq<char>,
    d: Seq<char>,
    e: Seq<char>,
    f: Seq<char>,
    g: Seq<char>,
)
    ensures
        ({
            let s = a + b + c + d + e + f + g;
            &&& holds(s, b)
            &&& holds(s, c)
            &&& holds(s, d)
            &&& holds(s, e)
            &&& holds(s, f)
            &&& text::ends_with(s, g)
        }),
{
    let s = a + b + c + d + e + f + g;
    lemma_part(a, b, c + d + e + f + g);
    assert(s =~= a + b + (c + d + e + f + g));
    lemma_part(a + b, c, d + e + f + g);
    assert(s =~= a + b + c + (d + e + f + g));
    lemma_part(a + b + c, d, e + f + g);
    assert(s =~= a + b + c + d + (e + f + g));
    lemma_part(a + b + c + d, e, f + g);
    assert(s =~= a + b + c + d + e + (f + g));
    lemma_part(a + b + c + d + e, f, g);
    assert(s.subrange(s.len() - g.len(), s.len() as int) =~= g);
}

proof fn lemma_part_of_part(s: Seq<char>, t: Seq<char>, p: int, u: Seq<char>, q: int)
    requires
        text::occurs_at(s, t, p),
        text::occurs_at(t, u, q),
    ensures
        text::occurs_at(s, u, p + q),
{
    let x = s.subrange(p + q, p + q + u.len());
    assert forall|k: int| 0 <= k < u.len() implies x[k] == u[k] by {
        assert(s.subrange(p, p + t.len())[q + k] == t[q + k]);
        assert(t.subrange(q, q + u.len())[k] == u[k]);
    }
    assert(x =~= u);
}

proof fn lemma_holds_through(s: Seq<char>, t: Seq<char>, u: Seq<char>)
    requires
        holds(s, t),
        holds(t, u),
    ensures
        holds(s, u),
{
    let p = choose|p: int| #[trigger] text::occurs_at(s, t, p);
    let q = choose|q: int| #[trigger] text::occurs_at(t, u, q);
    lemma_part_of_part(s, t, p, u, q);
}

proof fn lemma_in_turn_through(s: Seq<char>, t: Seq<char>, u: Seq<char>, v: Seq<char>)
    requires
        holds(s, t),
        holds_in_turn(t, u, v),
    ensures
        holds_in_turn(s, u, v),
{
    let p = choose|p: int| #[trigger] text::occurs_at(s, t, p);
    let (a, b) = choose|a: int, b: int|
        #![trigger text::occurs_at(t, u, a), text::occurs_at(t, v, b)]
        text::occurs_at(t, u, a) && text::occurs_at(t, v, b) && a + u.len() <= b;
    lemma_part_of_part(s, t, p, u, a);
    lemma_part_of_part(s, t, p, v, b);
}

/// Two parts stand in turn.
proof fn lemma_two_in_turn(a: Seq<char>, b: Seq<char>, c: Seq<char>, d: Seq<char>, e: Seq<char>)
    ensures
        holds_in_turn(a + b + c + d + e, b, d),
{
    let s = a + b + c + d + e;
    lemma_part(a, b, c + d + e);
    assert(s =~= a + b + (c + d + e));
    lemma_part(a + b + c, d, e);
}

// ---------------------------------------------------------------------------
// Chunks
// ---------------------------------------------------------------------------

/// The line of a chunk: its file, its heading and a text of it.
pub open spec fn line_of(path: Seq<char>, heading: Option<String>, content: Seq<char>) -> Seq<char> {
    "- ["@ + path + " — "@ + (match heading {
        Some(h) => h@,
        None => "(no heading)"@,
    }) + "] "@ + content + "\n"@
}

proof fn lemma_found_line(chunks: Seq<RetrievedChunk>, i: int)
    requires
        0 <= i < chunks.len(),
    ensures
        text::occurs_at(
            search::found_lines(chunks),
            line_of(
                chunks[i].file_path@,
                chunks[i].section_heading,
                text::excerpt(text::trim(chunks[i].content@), 400),
            ),
            search::found_lines(chunks.take(i)).len() as int,
        ),
    decreases chunks.len(),
{
    let c = chunks[i];
    let line = line_of(
        c.file_path@,
        c.section_heading,
        text::excerpt(text::trim(c.content@), 400),
    );
    let all = search::found_lines(chunks);
    let rest = chunks.drop_last();
    let before = search::found_lines(rest);
    if i == chunks.len() - 1 {
        assert(chunks.take(i) =~= rest);
        assert(all =~= before + line + Seq::empty());
        lemma_part(before, line, Seq::empty());
    } else {
        lemma_found_line(rest, i);
        assert(rest[i] == c);
        assert(rest.take(i) =~= chunks.take(i));
        let last = chunks.last();
        let tail = rag::chunk_line(
            last.file_path@,
            last.section_heading,
            text::excerpt(text::trim(last.content@), 400),
        );
        lemma_part(Seq::empty(), before, tail);
        assert(all =~= Seq::empty() + before + tail);
        lemma_part_of_part(all, before, 0, line, search::found_lines(chunks.take(i)).len() as int);
    }
}

/// Two chunks have their lines in turn.
proof fn lemma_found_lines_in_turn(chunks: Seq<RetrievedChunk>, i: int, j: int)
    requires
        0 <= i < j < chunks.len(),
    ensures
        holds_in_turn(
            search::found_lines(chunks),
            line_of(
                chunks[i].file_path@,
                chunks[i].section_heading,
                text::excerpt(text::trim(chunks[i].content@), 400),
            ),
            line_of(
                chunks[j].file_path@,
                chunks[j].section_heading,
                text::excerpt(text::trim(chunks[j].content@), 400),
            ),
        ),
{
    lemma_found_line(chunks, i);
    lemma_found_line(chunks, j);
    lemma_found_line(chunks.take(j), i);
    assert(chunks.take(j)[i] == chunks[i]);
    assert(chunks.take(j).take(i) =~= chunks.take(i));
}

/// The part of the prompt of a search that holds the lines of the chunks.
proof fn lemma_lines_in_search(query: Seq<char>, chunks: Seq<RetrievedChunk>, profile: Seq<char>)
    requires
        chunks.len() > 0,
    ensures
        holds(search::search_prompt(query, chunks, profile), search::found_lines(chunks)),
{
    let head = "# User query\n"@ + query + "\n\n# Retrieved vault chunks\n"@;
    let lines = search::found_lines(chunks);
    let tail = "\n# User profile\n"@ + rag::profile_section(profile)
        + "\nAnswer the query using only the retrieved chunks.\n"@;
    lemma_part(head, lines, tail);
    assert(search::search_prompt(query, chunks, profile) =~= head + lines + tail);
}

/// Every chunk that was found stands in the prompt of a search: its file, its
/// heading and the first four hundred characters of what it says. The chunks
/// stand there in their order.
pub proof fn every_found_chunk_is_shown(
    query: Seq<char>,
    chunks: Seq<RetrievedChunk>,
    profile: Seq<char>,
    i: int,
)
    requires
        0 <= i < chunks.len(),
    ensures
        holds(
            search::search_prompt(query, chunks, profile),
            line_of(
                chunks[i].file_path@,
                chunks[i].section_heading,
                text::excerpt(text::trim(chunks[i].content@), 400),
            ),
        ),
        forall|j: int|
            #![trigger chunks[j]]
            i < j < chunks.len() ==> holds_in_turn(
                search::search_prompt(query, chunks, profile),
                line_of(
                    chunks[i].file_path@,
                    chunks[i].section_heading,
                    text::excerpt(text::trim(chunks[i].content@), 400),
                ),
                line_of(
                    chunks[j].file_path@,
                    chunks[j].section_heading,
                    text::excerpt(text::trim(chunks[j].content@), 400),
                ),
            ),
{
    let prompt = search::search_prompt(query, chunks, profile);
    let lines = search::found_lines(chunks);
    let line = line_of(
        chunks[i].file_path@,
        chunks[i].section_heading,
        text::excerpt(text::trim(chunks[i].content@), 400),
    );
    lemma_lines_in_search(query, chunks, profile);
    lemma_found_line(chunks, i);
    assert(holds(lines, line));
    lemma_holds_through(prompt, lines, line);
    assert forall|j: int|
        #![trigger chunks[j]]
        i < j < chunks.len() implies holds_in_turn(
        prompt,
        line,
        line_of(
            chunks[j].file_path@,
            chunks[j].section_heading,
            text::excerpt(text::trim(chunks[j].content@), 400),
        ),
    ) by {
        lemma_found_lines_in_turn(chunks, i, j);
        lemma_in_turn_through(
            prompt,
            lines,
            line,
            line_of(
                chunks[j].file_path@,
                chunks[j].section_heading,
                text::excerpt(text::trim(chunks[j].content@), 400),
            ),
        );
    }
}

/// The prompt of a search starts with the query, and holds the profile of the
/// user where there is one.
pub proof fn the_query_is_asked(query: Seq<char>, chunks: Seq<RetrievedChunk>, about: Seq<char>)
    ensures
        text::starts_with(
            search::search_prompt(query, chunks, about),
            "# User query\n"@ + query + "\n"@,
        ),
        !text::blank(about) ==> holds(search::search_prompt(query, chunks, about), about),
{
    reveal_strlit("\n");
    reveal_strlit("\n\n# Retrieved vault chunks\n");
    let prompt = search::search_prompt(query, chunks, about);
    let lines = if chunks.len() == 0 {
        "- (no retriever configured — answer from profile + general knowledge only)\n"@
    } else {
        search::found_lines(chunks)
    };
    let start = "# User query\n"@ + query + "\n"@;
    assert(prompt.subrange(0, start.len() as int) =~= start);
    if !text::blank(about) {
        let head = "# User query\n"@ + query + "\n\n# Retrieved vault chunks\n"@ + lines
            + "\n# User profile\n"@;
        let section = rag::profile_section(about);
        let tail = "\nAnswer the query using only the retrieved chunks.\n"@;
        lemma_part(head, section, tail);
        assert(prompt =~= head + section + tail);
        lemma_profile(about);
        lemma_holds_through(prompt, section, about);
    }
}

proof fn lemma_profile(about: Seq<char>)
    requires
        !text::blank(about),
    ensures
        holds(rag::profile_section(about), about),
{
    let section = rag::profile_section(about);
    lemma_part(Seq::empty(), about, Seq::empty());
    lemma_part(Seq::empty(), about, "\n"@);
    assert(Seq::empty() + about + Seq::empty() =~= about);
    assert(Seq::empty() + about + "\n"@ =~= about + "\n"@);
}

// ---------------------------------------------------------------------------
// What is known
// ---------------------------------------------------------------------------

proof fn lemma_chunk_line(chunks: Seq<ContextChunk>, i: int)
    requires
        0 <= i < chunks.len(),
    ensures
        text::occurs_at(
            rag::chunk_lines(chunks),
            line_of(chunks[i].file_path@, chunks[i].heading, text::trim(chunks[i].content@)),
            rag::chunk_lines(chunks.take(i)).len() as int,
        ),
    decreases chunks.len(),
{
    let c = chunks[i];
    let line = line_of(c.file_path@, c.heading, text::trim(c.content@));
    let all = rag::chunk_lines(chunks);
    let rest = chunks.drop_last();
    let before = rag::chunk_lines(rest);
    if i == chunks.len() - 1 {
        assert(chunks.take(i) =~= rest);
        assert(all =~= before + line + Seq::empty());
        lemma_part(before, line, Seq::empty());
    } else {
        lemma_chunk_line(rest, i);
        assert(rest[i] == c);
        assert(rest.take(i) =~= chunks.take(i));
        let last = chunks.last();
        let tail = rag::chunk_line(last.file_path@, last.heading, text::trim(last.content@));
        lemma_part(Seq::empty(), before, tail);
        assert(all =~= Seq::empty() + before + tail);
        lemma_part_of_part(all, before, 0, line, rag::chunk_lines(chunks.take(i)).len() as int);
    }
}

proof fn lemma_topic_in_section(c: RagContext)
    requires
        c.topic_chunks@.len() > 0,
    ensures
        holds(rag::prompt_section(c), rag::chunk_lines(c.topic_chunks@)),
{
    let head = "# Sender context (from vault)\n"@ + rag::sender_section(
        c.sender_name,
        c.sender_vault_path,
    ) + "\n"@ + "# Relevant vault notes\n"@;
    let lines = rag::chunk_lines(c.topic_chunks@);
    let tail = "\n"@ + "# User profile\n"@ + rag::profile_section(c.user_profile_content@);
    lemma_part(head, lines, tail);
    assert(rag::prompt_section(c) =~= head + lines + tail);
}

/// Every chunk that bears on a message stands in what a prompt says about it: its
/// file, its heading and all that it says. The chunks stand there in their order.
pub proof fn every_chunk_is_known(c: RagContext, i: int)
    requires
        0 <= i < c.topic_chunks@.len(),
    ensures
        holds(
            rag::prompt_section(c),
            line_of(
                c.topic_chunks@[i].file_path@,
                c.topic_chunks@[i].heading,
                text::trim(c.topic_chunks@[i].content@),
            ),
        ),
        forall|j: int|
            #![trigger c.topic_chunks@[j]]
            i < j < c.topic_chunks@.len() ==> holds_in_turn(
                rag::prompt_section(c),
                line_of(
                    c.topic_chunks@[i].file_path@,
                    c.topic_chunks@[i].heading,
                    text::trim(c.topic_chunks@[i].content@),
                ),
                line_of(
                    c.topic_chunks@[j].file_path@,
                    c.topic_chunks@[j].heading,
                    text::trim(c.topic_chunks@[j].content@),
                ),
            ),
{
    let chunks = c.topic_chunks@;
    let section = rag::prompt_section(c);
    let lines = rag::chunk_lines(chunks);
    let line = line_of(chunks[i].file_path@, chunks[i].heading, text::trim(chunks[i].content@));
    lemma_topic_in_section(c);
    lemma_chunk_line(chunks, i);
    assert(holds(lines, line));
    lemma_holds_through(section, lines, line);
    assert forall|j: int|
        #![trigger c.topic_chunks@[j]]
        i < j < chunks.len() implies holds_in_turn(
        section,
        line,
        line_of(chunks[j].file_path@, chunks[j].heading, text::trim(chunks[j].content@)),
    ) by {
        let other = line_of(
            chunks[j].file_path@,
            chunks[j].heading,
            text::trim(chunks[j].content@),
        );
        lemma_chunk_line(chunks, j);
        lemma_chunk_line(chunks.take(j), i);
        assert(chunks.take(j)[i] == chunks[i]);
        assert(chunks.take(j).take(i) =~= chunks.take(i));
        assert(holds_in_turn(lines, line, other));
        lemma_in_turn_through(section, lines, line, other);
    }
}

/// The parts of a section stand in their sum.
proof fn lemma_three_of_eight(
    a: Seq<char>,
    b: Seq<char>,
    c: Seq<char>,
    d: Seq<char>,
    e: Seq<char>,
    f: Seq<char>,
    g: Seq<char>,
    h: Seq<char>,
)
    ensures
        holds(a + b + c + d + e + f + g + h, b),
        holds(a + b + c + d + e + f + g + h, e),
        holds(a + b + c + d + e + f + g + h, h),
{
    let s = a + b + c + d + e + f + g + h;
    lemma_part(a, b, c + d + e + f + g + h);
    assert(s =~= a + b + (c + d + e + f + g + h));
    lemma_part(a + b + c + d, e, f + g + h);
    assert(s =~= a + b + c + d + e + (f + g + h));
    let none = Seq::<char>::empty();
    lemma_part(a + b + c + d + e + f + g, h, none);
    assert(s =~= a + b + c + d + e + f + g + h + none);
}

/// What is said of the sender, the topic and the user stands in the section.
proof fn lemma_section_parts(c: RagContext)
    ensures
        holds(rag::prompt_section(c), rag::sender_section(c.sender_name, c.sender_vault_path)),
        holds(rag::prompt_section(c), rag::topic_section(c.topic_chunks@)),
        holds(rag::prompt_section(c), rag::profile_section(c.user_profile_content@)),
{
    lemma_three_of_eight(
        "# Sender context (from vault)\n"@,
        rag::sender_section(c.sender_name, c.sender_vault_path),
        "\n"@,
        "# Relevant vault notes\n"@,
        rag::topic_section(c.topic_chunks@),
        "\n"@,
        "# User profile\n"@,
        rag::profile_section(c.user_profile_content@),
    );
}

/// A sender whom the vault knows is named, with the file about them, and one whom
/// it does not know is said to be unknown. What the user says of themselves stands
/// there too.
pub proof fn the_sender_and_the_user_are_known(c: RagContext)
    ensures
        c.sender_name is Some && c.sender_vault_path is Some ==> holds_in_turn(
            rag::prompt_section(c),
            c.sender_name->0@,
            c.sender_vault_path->0@,
        ),
        c.sender_name is None || c.sender_vault_path is None ==> holds(
            rag::prompt_section(c),
            "- Unknown sender — no vault profile match.\n"@,
        ),
        !text::blank(c.user_profile_content@) ==> holds(
            rag::prompt_section(c),
            c.user_profile_content@,
        ),
        c.topic_chunks@.len() == 0 ==> holds(
            rag::prompt_section(c),
            "- (no vault content matched this message)\n"@,
        ),
{
    let section = rag::prompt_section(c);
    let sender = rag::sender_section(c.sender_name, c.sender_vault_path);
    let profile = rag::profile_section(c.user_profile_content@);
    lemma_section_parts(c);
    if c.sender_name is Some && c.sender_vault_path is Some {
        let name = c.sender_name->0@;
        let path = c.sender_vault_path->0@;
        lemma_two_in_turn("- Known contact: "@, name, " (profile: "@, path, ")\n"@);
        lemma_in_turn_through(section, sender, name, path);
    }
    if !text::blank(c.user_profile_content@) {
        lemma_profile(c.user_profile_content@);
        lemma_holds_through(section, profile, c.user_profile_content@);
    }
}

// ---------------------------------------------------------------------------
// Messages
// ---------------------------------------------------------------------------

/// A prompt that asks for a classification holds where the message comes from,
/// its subject, the start of what it says, and all that is known round it.
pub proof fn a_classification_is_asked_about_the_message(
    channel: Channel,
    name: Seq<char>,
    address: Seq<char>,
    subject: Seq<char>,
    body: Seq<char>,
    rag: RagContext,
)
    ensures
        ({
            let prompt = prompts::classification_prompt(
                channel,
                name,
                address,
                subject,
                body,
                rag,
            );
            &&& holds(prompt, "Channel: "@ + channel::channel_name(channel) + "\n"@)
            &&& holds(prompt, "From: "@ + name + " <"@ + address + ">\n"@)
            &&& !text::blank(subject) ==> holds(prompt, "Subject: "@ + subject + "\n"@)
            &&& holds(prompt, "\nBody:\n"@ + text::trim(text::excerpt(body, 2000)) + "\n\n"@)
            &&& holds(prompt, rag::prompt_section(rag))
        }),
{
    let prompt = prompts::classification_prompt(channel, name, address, subject, body, rag);
    let a = "# Incoming message\n"@;
    let b = "Channel: "@ + channel::channel_name(channel) + "\n"@;
    let c = "From: "@ + name + " <"@ + address + ">\n"@;
    let d = prompts::subject_line(subject);
    let e = "\nBody:\n"@ + text::trim(text::excerpt(body, 2000)) + "\n\n"@;
    let f = rag::prompt_section(rag);
    let g = "\nClassify this message.\n"@;
    lemma_seven_parts(a, b, c, d, e, f, g);
    assert(prompt =~= a + b + c + d + e + f + g);
}

/// A prompt that asks for a draft holds where the message comes from, its
/// subject, all that it says as it leaves the machine, and what is known round it.
pub proof fn a_draft_is_asked_for_the_message(
    channel: Channel,
    sender: Seq<char>,
    subject: Seq<char>,
    body: Seq<char>,
    rag: RagContext,
)
    ensures
        ({
            let prompt = draft::draft_prompt(channel, sender, subject, body, rag);
            &&& holds(prompt, "Channel: "@ + channel::channel_name(channel) + "\n"@)
            &&& holds(prompt, "From: "@ + sender + "\n"@)
            &&& !text::blank(subject) ==> holds(prompt, "Subject: "@ + subject + "\n"@)
            &&& holds(prompt, "\nBody:\n"@ + text::trim(body) + "\n\n"@)
            &&& holds(prompt, rag::prompt_section(rag))
            &&& text::ends_with(prompt, "\nDraft a reply to this message.\n"@)
        }),
{
    let prompt = draft::draft_prompt(channel, sender, subject, body, rag);
    let a = "# Incoming message\n"@;
    let b = "Channel: "@ + channel::channel_name(channel) + "\n"@;
    let c = "From: "@ + sender + "\n"@;
    let d = prompts::subject_line(subject);
    let e = "\nBody:\n"@ + text::trim(body) + "\n\n"@;
    let f = rag::prompt_section(rag);
    let g = "\nDraft a reply to this message.\n"@;
    lemma_seven_parts(a, b, c, d, e, f, g);
    assert(prompt =~= a + b + c + d + e + f + g);
}

/// A prompt that asks for a summary holds the thread as it leaves the machine,
/// and what is known round it.
pub proof fn a_summary_is_asked_of_the_thread(thread: Seq<char>, rag: RagContext)
    ensures
        holds(summarize::summary_prompt(thread, rag), text::trim(thread)),
        holds(summarize::summary_prompt(thread, rag), rag::prompt_section(rag)),
        text::ends_with(
            summarize::summary_prompt(thread, rag),
            "\nSummarize this conversation.\n"@,
        ),
{
    let prompt = summarize::summary_prompt(thread, rag);
    let a = "# Conversation to summarize\n\n"@;
    let b = text::trim(thread);
    let c = "\n\n"@;
    let d = rag::prompt_section(rag);
    let e = "\nSummarize this conversation.\n"@;
    lemma_part(a, b, c + d + e);
    assert(prompt =~= a + b + (c + d + e));
    lemma_part(a + b + c, d, e);
    assert(prompt =~= a + b + c + d + e);
    assert(prompt.subrange(prompt.len() - e.len(), prompt.len() as int) =~= e);
}

/// The line of a message in its thread: when it was sent, its subject where it
/// has one, and what it says.
pub open spec fn message_shown(m: Message) -> Seq<char> {
    "["@ + time::rfc3339_text(m.timestamp@.0 as i64, m.timestamp@.1 as u32) + "] "@ + (
    match m.content.subject {
        Some(s) => "(subject: "@ + s@ + ") "@,
        None => Seq::empty(),
    }) + (match m.content.text {
        Some(t) => text::trim(t@),
        None => Seq::empty(),
    }) + "\n"@
}

proof fn lemma_message_line(messages: Seq<Message>, i: int)
    requires
        0 <= i < messages.len(),
    ensures
        text::occurs_at(
            summarize::thread_text(messages),
            message_shown(messages[i]),
            summarize::thread_text(messages.take(i)).len() as int,
        ),
    decreases messages.len(),
{
    let line = message_shown(messages[i]);
    let all = summarize::thread_text(messages);
    let rest = messages.drop_last();
    let before = summarize::thread_text(rest);
    if i == messages.len() - 1 {
        assert(messages.take(i) =~= rest);
        assert(all =~= before + line + Seq::empty());
        lemma_part(before, line, Seq::empty());
    } else {
        lemma_message_line(rest, i);
        assert(rest[i] == messages[i]);
        assert(rest.take(i) =~= messages.take(i));
        let tail = summarize::message_line(messages.last());
        lemma_part(Seq::empty(), before, tail);
        assert(all =~= Seq::empty() + before + tail);
        lemma_part_of_part(
            all,
            before,
            0,
            line,
            summarize::thread_text(messages.take(i)).len() as int,
        );
    }
}

/// Every message of a thread has its line in the text of the thread, and the lines
/// stand in the order of the messages.
pub proof fn every_message_has_its_line(messages: Seq<Message>, i: int)
    requires
        0 <= i < messages.len(),
    ensures
        holds(summarize::thread_text(messages), message_shown(messages[i])),
        forall|j: int|
            #![trigger messages[j]]
            i < j < messages.len() ==> holds_in_turn(
                summarize::thread_text(messages),
                message_shown(messages[i]),
                message_shown(messages[j]),
            ),
{
    lemma_message_line(messages, i);
    assert forall|j: int|
        #![trigger messages[j]]
        i < j < messages.len() implies holds_in_turn(
        summarize::thread_text(messages),
        message_shown(messages[i]),
        message_shown(messages[j]),
    ) by {
        lemma_message_line(messages, j);
        lemma_message_line(messages.take(j), i);
        assert(messages.take(j)[i] == messages[i]);
        assert(messages.take(j).take(i) =~= messages.take(i));
    }
}

// ---------------------------------------------------------------------------
// Queries and profiles
// ---------------------------------------------------------------------------

/// The query for a message weighs its subject twice: it stands there two times, in
/// front of the first five hundred characters of the body. Without a subject the
/// body stands alone.
pub proof fn the_subject_weighs_twice(subject: Seq<char>, body: Seq<char>)
    ensures
        text::blank(subject) ==> rag::retrieval_query(subject, body) == text::excerpt(
            text::trim(body),
            500,
        ),
        !text::blank(subject) ==> {
            let s = text::trim(subject);
            let n = s.len() as int;
            let q = rag::retrieval_query(subject, body);
            &&& text::starts_with(q, s)
            &&& text::occurs_at(q, s, n + 1)
            &&& q[n] == '\n'
            &&& q[2 * n + 1] == '\n'
            &&& q.skip(2 * n + 2) == text::excerpt(text::trim(body), 500)
        },
{
    text::lemma_trim_empty_iff_blank(subject);
    reveal_strlit("\n");
    let s = text::trim(subject);
    let b = text::excerpt(text::trim(body), 500);
    let q = rag::retrieval_query(subject, body);
    if !text::blank(subject) {
        let n = s.len() as int;
        assert(q.subrange(0, n) =~= s);
        assert(q.subrange(n + 1, n + 1 + n) =~= s);
        assert(q.skip(2 * n + 2) =~= b);
    }
}

/// A profile within its budget goes into prompts as it is; of a longer one the
/// start does, and it is said that it was cut.
pub proof fn a_profile_is_kept_or_cut(raw: Seq<char>)
    ensures
        raw.len() <= 4000 ==> profile::profile_text(raw) == raw,
        raw.len() > 4000 ==> {
            &&& text::ends_with(profile::profile_text(raw), "[truncated]"@)
            &&& text::starts_with(profile::profile_text(raw), raw.take(3988))
            &&& profile::profile_text(raw).len() == 3999
        },
{
    reveal_strlit("[truncated]");
    if raw.len() > 4000 {
        let p = profile::profile_text(raw);
        assert(p.subrange(p.len() - 11, p.len() as int) =~= "[truncated]"@);
        assert(p.subrange(0, 3988) =~= raw.take(3988));
    }
}

// ---------------------------------------------------------------------------
// Answers
// ---------------------------------------------------------------------------

proof fn lemma_balance_prefix(a: Seq<char>, b: Seq<char>)
    ensures
        json::brace_balance(a + b) == json::brace_balance(a) + json::brace_balance(b),
    decreases b.len(),
{
    if b.len() == 0 {
        assert(a + b =~= a);
    } else {
        lemma_balance_prefix(a, b.drop_last());
        assert((a + b).drop_last() =~= a + b.drop_last());
    }
}

proof fn lemma_balanced_at(t: Seq<char>, from: int, e: int)
    requires
        0 <= from <= e <= t.len(),
        forall|k: int| from <= k < e ==> json::brace_balance(#[trigger] t.take(k)) != 0,
        json::brace_balance(t.take(e)) == 0,
    ensures
        json::balanced_end(t, from) == Some(e),
    decreases e - from,
{
    if from < e {
        assert(json::brace_balance(t.take(from)) != 0);
        lemma_balanced_at(t, from + 1, e);
    }
}

/// Braces balance where as many close as open.
pub proof fn braces_are_counted(s: Seq<char>, c: char)
    ensures
        json::brace_balance(Seq::empty()) == 0,
        json::brace_balance(s.push('{')) == json::brace_balance(s) + 1,
        json::brace_balance(s.push('}')) == json::brace_balance(s) - 1,
        c != '{' && c != '}' ==> json::brace_balance(s.push(c)) == json::brace_balance(s),
{
    assert(s.push('{').drop_last() =~= s);
    assert(s.push('}').drop_last() =~= s);
    assert(s.push(c).drop_last() =~= s);
}

/// An object that stands in prose is what is found, all of it and no more:
/// whatever stands before its first brace and behind its last.
pub proof fn an_object_in_prose_is_found(before: Seq<char>, object: Seq<char>, after: Seq<char>)
    requires
        !before.contains('{'),
        object.len() > 0,
        object[0] == '{',
        json::brace_balance(object) == 0,
        forall|k: int| 0 < k < object.len() ==> json::brace_balance(#[trigger] object.take(k)) != 0,
    ensures
        json::first_object(before + object + after) == Some(object),
{
    let s = before + object + after;
    let n = before.len() as int;
    assert(s[n] == '{');
    assert forall|i: int| 0 <= i < n implies #[trigger] s[i] != '{' by {
        assert(s[i] == before[i]);
    }
    text::lemma_first_index(s, '{', n);
    let t = s.skip(n);
    assert(t =~= object + after);
    let e = object.len() as int;
    assert(t.take(e) =~= object);
    assert forall|k: int| 1 <= k < e implies json::brace_balance(#[trigger] t.take(k)) != 0 by {
        assert(t.take(k) =~= object.take(k));
    }
    lemma_balanced_at(t, 1, e);
}

/// Without an opening brace nothing is found.
pub proof fn without_a_brace_nothing_is_found(s: Seq<char>)
    requires
        !s.contains('{'),
    ensures
        json::first_object(s) is None,
{
    text::lemma_first_index_props(s, '{');
    let n = text::first_index(s, '{');
    if n < s.len() {
        assert(s[n] == '{');
    }
}

/// A code fence round an answer is taken off, with its label and the white space
/// within it; without a fence only the white space round the answer is.
pub proof fn a_fence_is_taken_off(a: Seq<char>, answer: Seq<char>, b: Seq<char>)
    requires
        text::blank(a),
        text::blank(b),
        answer.len() > 0,
        answer[0] == '{',
        answer.last() == '}',
    ensures
        json::unfenced("```json"@ + a + answer + b + "```"@) == answer,
        json::unfenced("```"@ + a + answer + b + "```"@) == answer,
        json::unfenced(a + answer + b) == answer,
{
    reveal_strlit("```json");
    reveal_strlit("```");
    reveal_strlit("json");
    assert(text_laws::tight(answer));
    text_laws::white_space_round_a_text_is_trimmed(a, answer, b);
    let inner = a + answer + b;
    let fence = "```"@;
    assert(answer.len() >= 3 ==> answer.subrange(0, 3)[0] == '{');
    assert(!text::starts_with(answer, fence));
    let labelled = "```json"@ + a + answer + b + fence;
    lemma_fenced("json"@ + inner);
    assert(labelled =~= fence + ("json"@ + inner) + fence);
    let rest = "json"@ + inner + fence;
    assert(rest.subrange(0, 4) =~= "json"@);
    assert(rest.skip(4) =~= inner + fence);
    lemma_unfence("json"@ + inner, inner);
    let plain = fence + a + answer + b + fence;
    lemma_fenced(inner);
    assert(plain =~= fence + inner + fence);
    assert(!text::starts_with(inner + fence, "json"@)) by {
        let s = inner + fence;
        if text::starts_with(s, "json"@) {
            assert(s.subrange(0, 4)[0] == 'j');
            assert(s[0] == 'j');
            if a.len() > 0 {
                assert(s[0] == a[0]);
                assert(text::white_space(a[0]));
            } else {
                assert(s[0] == answer[0]);
            }
        }
    }
    lemma_unfence(inner, inner);
}

/// A text between fences has no white space at its ends.
proof fn lemma_fenced(inner: Seq<char>)
    ensures
        text::trim("```"@ + inner + "```"@) == "```"@ + inner + "```"@,
{
    reveal_strlit("```");
    let s = "```"@ + inner + "```"@;
    assert(s[0] == '`' && s.last() == '`');
    let none = Seq::<char>::empty();
    assert(none + s + none =~= s);
    text_laws::white_space_round_a_text_is_trimmed(none, s, none);
}

/// What stands between fences, once the label was taken off it.
proof fn lemma_unfence(labelled: Seq<char>, inner: Seq<char>)
    requires
        text::without_prefix(labelled + "```"@, "json"@) == inner + "```"@,
    ensures
        json::unfenced("```"@ + labelled + "```"@) == text::trim(inner),
{
    reveal_strlit("```");
    lemma_fenced(labelled);
    let s = "```"@ + labelled + "```"@;
    assert(s.subrange(0, 3) =~= "```"@);
    assert(s.skip(3) =~= labelled + "```"@);
    let t = inner + "```"@;
    assert(t.subrange(t.len() - 3, t.len() as int) =~= "```"@);
    assert(t.take(t.len() - 3) =~= inner);
}

} // verus!
