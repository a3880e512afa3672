//! What holds of the addresses and numbers of a text that leaves the machine.
use vstd::prelude::*;

use crate::ai::cloud::redactor;
use crate::ai::cloud::redactor::{EntityClass, Redaction, Scrubbed};
use crate::pattern;
use crate::pattern::{EMAIL_PATTERN, PHONE_PATTERN};
use crate::text;

verus! {

/// One of the entities is of this class and stood in the text as `original`.
pub open spec fn stands_for(
    entries: Seq<Scrubbed>,
    class: EntityClass,
    original: Seq<char>,
) -> bool {
    exists|k: int|
        0 <= k < entries.len() && (#[trigger] entries[k]).class == class && entries[k].original
            == original
}

proof fn lemma_met_is_kept(
    entries: Seq<Scrubbed>,
    class: EntityClass,
    original: Seq<char>,
    c: EntityClass,
    o: Seq<char>,
)
    ensures
        stands_for(redactor::entries_with(entries, class, original), class, original),
        stands_for(entries, c, o) ==> stands_for(
            redactor::entries_with(entries, class, original),
            c,
            o,
        ),
{
    let after = redactor::entries_with(entries, class, original);
    redactor::lemma_entry_index_props(entries, class, original, 0);
    let k = redactor::entry_index(entries, class, original, 0);
    if k < entries.len() {
        assert(after[k].class == class && after[k].original == original);
    } else {
        assert(after[after.len() - 1].original == original);
    }
    if stands_for(entries, c, o) {
        let j = choose|j: int|
            0 <= j < entries.len() && (#[trigger] entries[j]).class == c && entries[j].original
                == o;
        assert(after[j] == entries[j]);
    }
}

proof fn lemma_substitute_keeps(
    t: Seq<char>,
    spans: Seq<(int, int)>,
    class: EntityClass,
    entries: Seq<Scrubbed>,
    from: int,
    c: EntityClass,
    o: Seq<char>,
)
    requires
        stands_for(entries, c, o),
    ensures
        stands_for(redactor::substitute(t, spans, class, entries, from).entries, c, o),
    decreases spans.len(),
{
    if spans.len() > 0 {
        let original = t.subrange(spans[0].0, spans[0].1);
        lemma_met_is_kept(entries, class, original, c, o);
        lemma_substitute_keeps(
            t,
            spans.drop_first(),
            class,
            redactor::entries_with(entries, class, original),
            spans[0].1,
            c,
            o,
        );
    }
}

proof fn lemma_substitute_meets(
    t: Seq<char>,
    spans: Seq<(int, int)>,
    class: EntityClass,
    entries: Seq<Scrubbed>,
    from: int,
    i: int,
)
    requires
        0 <= i < spans.len(),
    ensures
        stands_for(
            redactor::substitute(t, spans, class, entries, from).entries,
            class,
            t.subrange(spans[i].0, spans[i].1),
        ),
    decreases spans.len(),
{
    let original = t.subrange(spans[0].0, spans[0].1);
    let after = redactor::entries_with(entries, class, original);
    let rest = spans.drop_first();
    if i == 0 {
        lemma_met_is_kept(entries, class, original, class, original);
        lemma_substitute_keeps(t, rest, class, after, spans[0].1, class, original);
    } else {
        lemma_substitute_meets(t, rest, class, after, spans[0].1, i - 1);
        assert(rest[i - 1] == spans[i]);
    }
}

/// Every address that is found in the text once its names are gone has a token: an
/// entity of its class stands for it.
pub proof fn every_address_has_its_token(names: Seq<Seq<char>>, input: Seq<char>, i: int)
    requires
        ({
            let named = redactor::scrub_names(
                names,
                Redaction { text: input, entries: Seq::empty() },
            );
            0 <= i < pattern::pattern_spans(EMAIL_PATTERN@, named.text).len()
        }),
    ensures
        ({
            let named = redactor::scrub_names(
                names,
                Redaction { text: input, entries: Seq::empty() },
            );
            let span = pattern::pattern_spans(EMAIL_PATTERN@, named.text)[i];
            stands_for(
                redactor::redaction(names, input).entries,
                EntityClass::Email,
                named.text.subrange(span.0, span.1),
            )
        }),
{
    let named = redactor::scrub_names(names, Redaction { text: input, entries: Seq::empty() });
    let spans = pattern::pattern_spans(EMAIL_PATTERN@, named.text);
    let mailed = redactor::scrub_pattern(EMAIL_PATTERN@, EntityClass::Email, named);
    lemma_substitute_meets(named.text, spans, EntityClass::Email, named.entries, 0, i);
    lemma_substitute_keeps(
        mailed.text,
        pattern::pattern_spans(PHONE_PATTERN@, mailed.text),
        EntityClass::Phone,
        mailed.entries,
        0,
        EntityClass::Email,
        named.text.subrange(spans[i].0, spans[i].1),
    );
}

/// Every number that is found in a text without names and addresses has a token.
pub proof fn every_number_has_its_token(input: Seq<char>, i: int)
    requires
        pattern::pattern_spans(EMAIL_PATTERN@, input).len() == 0,
        0 <= i < pattern::pattern_spans(PHONE_PATTERN@, input).len(),
    ensures
        ({
            let span = pattern::pattern_spans(PHONE_PATTERN@, input)[i];
            stands_for(
                redactor::redaction(Seq::empty(), input).entries,
                EntityClass::Phone,
                input.subrange(span.0, span.1),
            )
        }),
{
    let state = Redaction { text: input, entries: Seq::<Scrubbed>::empty() };
    let mailed = redactor::scrub_pattern(EMAIL_PATTERN@, EntityClass::Email, state);
    assert(input.skip(0) =~= input);
    assert(mailed.text == input);
    lemma_substitute_meets(
        input,
        pattern::pattern_spans(PHONE_PATTERN@, input),
        EntityClass::Phone,
        mailed.entries,
        0,
        i,
    );
}

/// A token is the word for its class and a number, in square brackets.
pub proof fn tokens_are_words_with_numbers(n: nat)
    ensures
        redactor::token_text(EntityClass::Person, n) == "[PERSON_"@ + text::decimal(n) + "]"@,
        redactor::token_text(EntityClass::Email, n) == "[EMAIL_"@ + text::decimal(n) + "]"@,
        redactor::token_text(EntityClass::Phone, n) == "[PHONE_"@ + text::decimal(n) + "]"@,
{
    reveal_strlit("[");
    reveal_strlit("_");
    reveal_strlit("PERSON");
    reveal_strlit("EMAIL");
    reveal_strlit("PHONE");
    reveal_strlit("[PERSON_");
    reveal_strlit("[EMAIL_");
    reveal_strlit("[PHONE_");
    assert("["@ + "PERSON"@ + "_"@ =~= "[PERSON_"@);
    assert("["@ + "EMAIL"@ + "_"@ =~= "[EMAIL_"@);
    assert("["@ + "PHONE"@ + "_"@ =~= "[PHONE_"@);
}

proof fn lemma_one_span(t: Seq<char>, s: int, e: int, class: EntityClass)
    requires
        0 <= s <= e <= t.len(),
    ensures
        redactor::substitute(t, seq![(s, e)], class, Seq::empty(), 0).text == t.take(s)
            + redactor::token_text(class, 1) + t.skip(e),
        redactor::substitute(t, seq![(s, e)], class, Seq::empty(), 0).entries == seq![
            Scrubbed { class, original: t.subrange(s, e), token: redactor::token_text(class, 1) },
        ],
{
    let none = Seq::<Scrubbed>::empty();
    let original = t.subrange(s, e);
    let spans = seq![(s, e)];
    let after = redactor::entries_with(none, class, original);
    let entry = Scrubbed { class, original, token: redactor::token_text(class, 1) };
    assert(spans.drop_first() =~= Seq::empty());
    assert(redactor::class_count(none, class) == 0);
    assert(after =~= seq![entry]);
    assert(redactor::entry_index(after, class, original, 0) == 0);
    assert(redactor::substitute(t, spans.drop_first(), class, after, e) == (Redaction {
        text: t.skip(e),
        entries: after,
    }));
    assert(t.subrange(0, s) =~= t.take(s));
}

/// An address that stands alone in a text, where no name is known, becomes its
/// token; what stands around it stays.
pub proof fn an_address_becomes_its_token(input: Seq<char>, s: int, e: int)
    requires
        0 <= s <= e <= input.len(),
        pattern::pattern_spans(EMAIL_PATTERN@, input) == seq![(s, e)],
        pattern::pattern_spans(
            PHONE_PATTERN@,
            input.take(s) + "[EMAIL_1]"@ + input.skip(e),
        ).len() == 0,
    ensures
        redactor::redaction(Seq::empty(), input).text == input.take(s) + "[EMAIL_1]"@
            + input.skip(e),
{
    let state = Redaction { text: input, entries: Seq::<Scrubbed>::empty() };
    let mailed = redactor::scrub_pattern(EMAIL_PATTERN@, EntityClass::Email, state);
    lemma_one_span(input, s, e, EntityClass::Email);
    lemma_first_tokens();
    assert(mailed.text == input.take(s) + "[EMAIL_1]"@ + input.skip(e));
    assert(mailed.text.skip(0) =~= mailed.text);
}

/// A number that stands alone in a text, where no name is known and no address is
/// found, becomes its token; what stands around it stays.
pub proof fn a_number_becomes_its_token(input: Seq<char>, s: int, e: int)
    requires
        0 <= s <= e <= input.len(),
        pattern::pattern_spans(EMAIL_PATTERN@, input).len() == 0,
        pattern::pattern_spans(PHONE_PATTERN@, input) == seq![(s, e)],
    ensures
        redactor::redaction(Seq::empty(), input).text == input.take(s) + "[PHONE_1]"@
            + input.skip(e),
{
    let state = Redaction { text: input, entries: Seq::<Scrubbed>::empty() };
    let mailed = redactor::scrub_pattern(EMAIL_PATTERN@, EntityClass::Email, state);
    assert(input.skip(0) =~= input);
    assert(mailed.text == input);
    lemma_one_span(input, s, e, EntityClass::Phone);
    lemma_first_tokens();
}

proof fn lemma_first_tokens()
    ensures
        redactor::token_text(EntityClass::Email, 1) == "[EMAIL_1]"@,
        redactor::token_text(EntityClass::Phone, 1) == "[PHONE_1]"@,
{
    tokens_are_words_with_numbers(1);
    reveal_strlit("[EMAIL_");
    reveal_strlit("[PHONE_");
    reveal_strlit("]");
    reveal_strlit("[EMAIL_1]");
    reveal_strlit("[PHONE_1]");
    assert(text::decimal(1) =~= seq!['1']);
    assert("[EMAIL_"@ + seq!['1'] + "]"@ =~= "[EMAIL_1]"@);
    assert("[PHONE_"@ + seq!['1'] + "]"@ =~= "[PHONE_1]"@);
}

} // verus!
