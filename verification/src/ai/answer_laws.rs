//! What holds of the answers of the models and of what leaves the machine.
use vstd::prelude::*;

use crate::ai::category;
use crate::ai::category::Category;
use crate::ai::classifier::Classification;
use crate::ai::cloud::actions::common;
use crate::ai::cloud::actions::common::Outgoing;
use crate::ai::cloud::actions::draft;
use crate::ai::cloud::actions::draft::ParsedDraft;
use crate::ai::cloud::config;
use crate::ai::cloud::config::{CloudAction, CloudConfig};
use crate::ai::cloud::redactor;
use crate::ai::cloud::redactor::Redactor;
use crate::ai::cloud::redactor_laws;
use crate::ai::llm;
use crate::ai::pipeline;
use crate::ai::pipeline::{Certainty, DecisionLog};
use crate::ai::prompts;
use crate::ai::prompts::RawResponse;
use crate::error::CoreError;
use crate::id;
use crate::id::Uuid;
use crate::knowledge::embedder;
use crate::pattern;
use crate::text;

verus! {

// ---------------------------------------------------------------------------
// Classifications
// ---------------------------------------------------------------------------

/// A category is named by its word.
pub proof fn a_category_is_named_by_its_word()
    ensures
        category::category_text(Category::Work) == "work"@,
        category::category_text(Category::Personal) == "personal"@,
        category::category_text(Category::Finance) == "finance"@,
        category::category_text(Category::Family) == "family"@,
        category::category_text(Category::Notifications) == "notifications"@,
        category::category_text(Category::Newsletters) == "newsletters"@,
        category::category_text(Category::Spam) == "spam"@,
{
}

/// An answer with a priority from one to five, the word of a category and a reason
/// is taken as it is.
pub proof fn a_right_answer_is_taken(
    r: Result<Classification, CoreError>,
    a: RawResponse,
    c: Category,
)
    requires
        prompts::classified_as(r, a),
        1 <= a.priority <= 5,
        a.category@ == category::category_text(c),
        !text::blank(a.reasoning@),
    ensures
        r matches Ok(x) && x.priority@ == a.priority && x.category == c && x.reasoning@
            == a.reasoning@,
{
    category::category_text_names_itself(c);
    assert(prompts::names_category(a.category@));
    category::category_text_is_injective(r->Ok_0.category, c);
}

/// An answer with another priority, the word of no category or without a reason is
/// refused.
pub proof fn a_wrong_answer_is_refused(r: Result<Classification, CoreError>, a: RawResponse)
    requires
        prompts::classified_as(r, a),
    ensures
        a.priority < 1 || a.priority > 5 ==> r is Err,
        text::blank(a.reasoning@) ==> r is Err,
        (forall|c: Category|
            #[trigger] category::category_text(c) != text::ascii_lowercase(
                text::trim(a.category@),
            )) ==> r is Err,
{
}

/// A classification is logged as made, with its reason and full confidence; one
/// that failed is logged as failed, with none.
pub proof fn a_classification_is_logged(
    d: DecisionLog,
    m: Uuid,
    result: Result<Classification, CoreError>,
)
    requires
        pipeline::decision_log(d, m, result),
    ensures
        d.entry.entity_type@ == "message"@,
        d.entry.entity_id@ == id::uuid_text(m),
        result matches Ok(c) ==> {
            &&& d.entry.action_type@ == "classify"@
            &&& d.entry.description@ == c.reasoning@
            &&& d.certainty == Certainty::Full
            &&& d.must_succeed
        },
        result is Err ==> {
            &&& d.entry.action_type@ == "classify_failed"@
            &&& d.certainty == Certainty::Zero
        },
{
}

// ---------------------------------------------------------------------------
// Drafts
// ---------------------------------------------------------------------------

/// A draft is taken where it says something, in English, French or German, and
/// refused in any other language.
pub proof fn a_draft_is_taken_in_three_languages(
    r: Result<ParsedDraft, CoreError>,
    a: ParsedDraft,
)
    requires
        draft::draft_read_as(r, a),
    ensures
        text::blank(a.draft@) ==> r is Err,
        !text::blank(a.draft@) && (a.language@ == "en"@ || a.language@ == "fr"@ || a.language@
            == "de"@) ==> r == Ok::<ParsedDraft, CoreError>(a),
        a.language@ != "en"@ && a.language@ != "fr"@ && a.language@ != "de"@ ==> r is Err,
{
}

/// A token that stands for nothing is taken out of what the user sees; what stands
/// around it stays.
pub proof fn a_token_for_nothing_is_taken_out(p: Seq<char>, t: Seq<char>, s: int, e: int)
    requires
        0 <= s <= e <= t.len(),
        pattern::pattern_spans(p, t) == seq![(s, e)],
    ensures
        pattern::without_matches(p, t) == t.take(s) + t.skip(e),
{
    let spans = seq![(s, e)];
    let rest = spans.drop_first();
    assert(rest =~= Seq::empty());
    assert(pattern::without_spans(t, rest, e) == t.skip(e));
    assert(t.subrange(0, s) =~= t.take(s));
    assert(pattern::without_spans(t, spans, 0) == t.subrange(0, s) + t.skip(e));
}

/// A text without such tokens is seen as it is.
pub proof fn a_text_without_tokens_is_seen_whole(p: Seq<char>, t: Seq<char>)
    requires
        pattern::pattern_spans(p, t).len() == 0,
    ensures
        pattern::without_matches(p, t) == t,
{
    assert(t.skip(0) =~= t);
}

/// The chunks for a draft are looked for by the subject and the body.
pub proof fn chunks_are_looked_for_by_subject_and_body(subject: Seq<char>, body: Seq<char>)
    ensures
        draft::chunk_query(subject, body) == subject + seq![' '] + body,
{
    reveal_strlit(" ");
    assert(" "@ =~= seq![' ']);
}

// ---------------------------------------------------------------------------
// What leaves the machine
// ---------------------------------------------------------------------------

/// Where scrubbing is asked for, none of the known names leaves the machine,
/// whatever its case; where it is not, the text leaves as it is.
pub proof fn no_known_name_leaves(
    o: Outgoing,
    t: Seq<char>,
    r: Redactor,
    cfg: CloudConfig,
    i: int,
    p: int,
)
    requires
        common::leaves_as(o, t, r, cfg),
        0 <= i < r.names().len(),
        redactor_laws::apart_from_tokens(r.names()[i]),
    ensures
        cfg.redact ==> !text::occurs_at(
            text::ascii_lowercase(o.text@),
            text::ascii_lowercase(r.names()[i]),
            p,
        ),
        !cfg.redact ==> o.text@ == t,
{
    if cfg.redact {
        redactor_laws::no_name_is_left(r.names(), t, i);
    }
}

/// Names are scrubbed from the longest to the shortest, each of them.
pub proof fn longer_names_are_scrubbed_first(
    sorted: Seq<Seq<char>>,
    names: Seq<Seq<char>>,
    i: int,
    j: int,
)
    requires
        redactor::longest_first(sorted, names),
        0 <= i <= j < sorted.len(),
        forall|k: int| 0 <= k < names.len() ==> (#[trigger] names[k]).len() <= u64::MAX,
        names.len() <= usize::MAX,
    ensures
        sorted.len() == names.len(),
        sorted[i].len() >= sorted[j].len(),
        names.contains(sorted[i]),
        forall|k: int| 0 <= k < names.len() ==> sorted.contains(#[trigger] names[k]),
{
    let w = redactor::name_weights(names);
    let order = choose|order: Seq<usize>|
        #[trigger] text::heaviest_first(order, w) && sorted == redactor::reordered(names, order);
    assert(order[i] < w.len() && order[j] < w.len());
    assert(sorted[i] == names[order[i] as int] && sorted[j] == names[order[j] as int]);
    assert(w[order[i] as int] == names[order[i] as int].len() as u128);
    assert(w[order[j] as int] == names[order[j] as int].len() as u128);
    assert forall|k: int| 0 <= k < names.len() implies sorted.contains(#[trigger] names[k]) by {
        assert(order.contains(k as usize));
        let a = choose|a: int| 0 <= a < order.len() && order[a] == k as usize;
        assert(sorted[a] == names[k]);
    }
}

/// An action is stored and logged by its name.
pub proof fn an_action_is_logged_by_its_name()
    ensures
        config::action_text(CloudAction::SummarizeThread) == "summarize_thread"@,
        config::action_text(CloudAction::DraftReply) == "draft_reply"@,
        config::action_text(CloudAction::SmartSearch) == "smart_search"@,
{
}

// ---------------------------------------------------------------------------
// Models
// ---------------------------------------------------------------------------

/// The slashes at the end of a server's address do not count.
pub proof fn slashes_at_the_end_do_not_count(base: Seq<char>, n: nat)
    requires
        base.len() == 0 || base.last() != '/',
    ensures
        llm::without_slashes(base + Seq::new(n, |i: int| '/')) == base,
    decreases n,
{
    let s = base + Seq::new(n, |i: int| '/');
    if n == 0 {
        assert(s =~= base);
    } else {
        assert(s.last() == '/');
        assert(s.drop_last() =~= base + Seq::new((n - 1) as nat, |i: int| '/'));
        slashes_at_the_end_do_not_count(base, (n - 1) as nat);
    }
}

/// The embedding model is told a query from a passage by the word before it.
pub proof fn queries_and_passages_are_told_apart(t: Seq<char>)
    ensures
        embedder::passage_form(t) == "passage: "@ + t,
        embedder::query_form(t) == "query: "@ + t,
        embedder::passage_form(t) != embedder::query_form(t),
{
    reveal_strlit("passage: ");
    reveal_strlit("query: ");
    assert(embedder::passage_form(t).len() == 9 + t.len());
    assert(embedder::query_form(t).len() == 7 + t.len());
}

} // verus!
