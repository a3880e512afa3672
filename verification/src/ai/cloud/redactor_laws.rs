//! What holds of scrubbing a text and putting the originals back.
use vstd::prelude::*;

use crate::ai::cloud::redactor;
use crate::text;
use crate::ai::cloud::redactor::{EntityClass, Redaction, Scrubbed};
use crate::pattern;
use crate::pattern::{EMAIL_PATTERN, PHONE_PATTERN};

verus! {

// ---------------------------------------------------------------------------
// Which characters of a scrubbed text belong to tokens
// ---------------------------------------------------------------------------

/// Every span holds a character, and none that is marked.
pub open spec fn spans_clear(spans: Seq<(int, int)>, marks: Seq<bool>) -> bool {
    forall|i: int|
        0 <= i < spans.len() ==> (#[trigger] spans[i]).0 < spans[i].1 && forall|p: int|
            spans[i].0 <= p < spans[i].1 ==> !#[trigger] marks[p]
}

/// The marks of a text from `from` on after its spans were scrubbed: those of
/// the tokens that were set, and those that stood outside the spans.
pub open spec fn substitute_marks(
    marks: Seq<bool>,
    text: Seq<char>,
    spans: Seq<(int, int)>,
    class: EntityClass,
    entries: Seq<Scrubbed>,
    from: int,
) -> Seq<bool>
    decreases spans.len(),
{
    if spans.len() == 0 {
        marks.skip(from)
    } else {
        let original = text.subrange(spans[0].0, spans[0].1);
        let token = redactor::token_for(entries, class, original);
        marks.subrange(from, spans[0].0) + Seq::new(token.len(), |i: int| true)
            + substitute_marks(
            marks,
            text,
            spans.drop_first(),
            class,
            redactor::entries_with(entries, class, original),
            spans[0].1,
        )
    }
}

/// A redaction together with the marks of its tokens.
#[verifier::ext_equal]
pub struct Marked {
    pub state: Redaction,
    pub marks: Seq<bool>,
}

/// A redaction and its marks after the spans were scrubbed.
pub open spec fn scrub_marked(m: Marked, spans: Seq<(int, int)>, class: EntityClass) -> Marked {
    Marked {
        state: redactor::substitute(
            m.state.text,
            spans,
            class,
            m.state.entries,
            0,
        ),
        marks: substitute_marks(m.marks, m.state.text, spans, class, m.state.entries, 0),
    }
}

/// A redaction and its marks after the names were scrubbed.
pub open spec fn names_marked(names: Seq<Seq<char>>, m: Marked) -> Marked
    decreases names.len(),
{
    if names.len() == 0 {
        m
    } else {
        names_marked(
            names.drop_first(),
            scrub_marked(
                m,
                redactor::name_spans(m.state.text, names[0]),
                EntityClass::Person,
            ),
        )
    }
}

/// No name matches inside a token set for an earlier one.
pub open spec fn names_clear(names: Seq<Seq<char>>, m: Marked) -> bool
    decreases names.len(),
{
    names.len() > 0 ==> {
        let spans = redactor::name_spans(m.state.text, names[0]);
        spans_clear(spans, m.marks) && names_clear(
            names.drop_first(),
            scrub_marked(m, spans, EntityClass::Person),
        )
    }
}

/// A text before anything was scrubbed.
pub open spec fn unmarked(input: Seq<char>) -> Marked {
    Marked {
        state: Redaction { text: input, entries: Seq::empty() },
        marks: Seq::new(input.len(), |i: int| false),
    }
}

/// No pass over `input` matches inside a token that an earlier one has set.
pub open spec fn tokens_stay_whole(names: Seq<Seq<char>>, input: Seq<char>) -> bool {
    let named = names_marked(names, unmarked(input));
    let emails = pattern::pattern_spans(EMAIL_PATTERN@, named.state.text);
    let mailed = scrub_marked(named, emails, EntityClass::Email);
    let phones = pattern::pattern_spans(PHONE_PATTERN@, mailed.state.text);
    &&& names_clear(names, unmarked(input))
    &&& spans_clear(emails, named.marks)
    &&& spans_clear(phones, mailed.marks)
}

/// No token of the redaction of `input` stands in `input` itself.
pub open spec fn tokens_are_fresh(names: Seq<Seq<char>>, input: Seq<char>) -> bool {
    let entries = redactor::redaction(names, input).entries;
    forall|i: int, p: int|
        0 <= i < entries.len() ==> !#[trigger] text::occurs_at(
            input,
            entries[i].token,
            p,
        )
}

// ---------------------------------------------------------------------------
// A scrubbed text as characters and tokens
// ---------------------------------------------------------------------------

/// A piece of a scrubbed text: a character, or the token of an entity.
pub enum Piece {
    Plain(char),
    Token(int),
}

/// What the piece shows.
pub open spec fn piece_shown(p: Piece, entries: Seq<Scrubbed>) -> Seq<char> {
    match p {
        Piece::Plain(c) => seq![c],
        Piece::Token(i) => entries[i].token,
    }
}

/// What the piece stands for.
pub open spec fn piece_source(p: Piece, entries: Seq<Scrubbed>) -> Seq<char> {
    match p {
        Piece::Plain(c) => seq![c],
        Piece::Token(i) => entries[i].original,
    }
}

/// The text that the pieces show.
pub open spec fn shown(a: Seq<Piece>, entries: Seq<Scrubbed>) -> Seq<char>
    decreases a.len(),
{
    if a.len() == 0 {
        Seq::empty()
    } else {
        piece_shown(a[0], entries) + shown(a.drop_first(), entries)
    }
}

/// The text that the pieces stand for.
pub open spec fn source(a: Seq<Piece>, entries: Seq<Scrubbed>) -> Seq<char>
    decreases a.len(),
{
    if a.len() == 0 {
        Seq::empty()
    } else {
        piece_source(a[0], entries) + source(a.drop_first(), entries)
    }
}

/// The marks of the shown text.
pub open spec fn piece_marks(a: Seq<Piece>, entries: Seq<Scrubbed>) -> Seq<bool>
    decreases a.len(),
{
    if a.len() == 0 {
        Seq::empty()
    } else {
        Seq::new(piece_shown(a[0], entries).len(), |i: int| a[0] is Token) + piece_marks(
            a.drop_first(),
            entries,
        )
    }
}

/// The number of tokens among the pieces.
pub open spec fn token_count(a: Seq<Piece>) -> nat
    decreases a.len(),
{
    if a.len() == 0 {
        0
    } else {
        token_count(a.drop_first()) + if a[0] is Token {
            1nat
        } else {
            0nat
        }
    }
}

/// The piece is a character or the token of one of `n` entities.
pub open spec fn piece_within(p: Piece, n: nat) -> bool {
    p is Token ==> 0 <= p->Token_0 < n
}

/// Every token of the pieces is that of an entity, and none is empty.
pub open spec fn pieces_of(a: Seq<Piece>, entries: Seq<Scrubbed>) -> bool {
    &&& forall|i: int| 0 <= i < a.len() ==> piece_within(#[trigger] a[i], entries.len())
    &&& forall|i: int| 0 <= i < entries.len() ==> (#[trigger] entries[i]).token.len() > 0
}

/// Pieces joined show, stand for and mark what their parts do.
proof fn lemma_join(a: Seq<Piece>, b: Seq<Piece>, entries: Seq<Scrubbed>)
    ensures
        shown(a + b, entries) == shown(a, entries) + shown(b, entries),
        source(a + b, entries) == source(a, entries) + source(b, entries),
        piece_marks(a + b, entries) == piece_marks(a, entries) + piece_marks(b, entries),
        token_count(a + b) == token_count(a) + token_count(b),
    decreases a.len(),
{
    if a.len() == 0 {
        assert(a + b =~= b);
        assert(shown(a, entries) + shown(b, entries) =~= shown(b, entries));
        assert(source(a, entries) + source(b, entries) =~= source(b, entries));
        assert(piece_marks(a, entries) + piece_marks(b, entries) =~= piece_marks(b, entries));
    } else {
        lemma_join(a.drop_first(), b, entries);
        assert((a + b).drop_first() =~= a.drop_first() + b);
        assert(shown(a + b, entries) =~= shown(a, entries) + shown(b, entries));
        assert(source(a + b, entries) =~= source(a, entries) + source(b, entries));
        assert(piece_marks(a + b, entries) =~= piece_marks(a, entries) + piece_marks(b, entries));
    }
}

/// One piece shows, stands for and marks its own text.
proof fn lemma_single(p: Piece, entries: Seq<Scrubbed>)
    ensures
        shown(seq![p], entries) == piece_shown(p, entries),
        source(seq![p], entries) == piece_source(p, entries),
        piece_marks(seq![p], entries) == Seq::new(
            piece_shown(p, entries).len(),
            |i: int| p is Token,
        ),
        token_count(seq![p]) == if p is Token {
            1nat
        } else {
            0nat
        },
{
    let a = seq![p];
    let none = a.drop_first();
    assert(none.len() == 0);
    assert(token_count(none) == 0);
    assert(a[0] == p);
    assert(shown(none, entries) =~= Seq::empty());
    assert(source(none, entries) =~= Seq::empty());
    assert(piece_marks(none, entries) =~= Seq::empty());
    assert(shown(a, entries) =~= piece_shown(p, entries));
    assert(source(a, entries) =~= piece_source(p, entries));
    assert(piece_marks(a, entries) =~= Seq::new(
        piece_shown(p, entries).len(),
        |i: int| p is Token,
    ));
}

/// There is a mark for each character shown.
proof fn lemma_marks_len(a: Seq<Piece>, entries: Seq<Scrubbed>)
    ensures
        piece_marks(a, entries).len() == shown(a, entries).len(),
    decreases a.len(),
{
    if a.len() > 0 {
        lemma_marks_len(a.drop_first(), entries);
    }
}

/// More entities change nothing about pieces of the first ones.
proof fn lemma_extend(a: Seq<Piece>, entries: Seq<Scrubbed>, more: Seq<Scrubbed>)
    requires
        pieces_of(a, entries),
        entries.is_prefix_of(more),
    ensures
        shown(a, more) == shown(a, entries),
        source(a, more) == source(a, entries),
        piece_marks(a, more) == piece_marks(a, entries),
    decreases a.len(),
{
    if a.len() > 0 {
        assert forall|i: int| 0 <= i < a.drop_first().len() implies piece_within(
            #[trigger] a.drop_first()[i],
            entries.len(),
        ) by {
            assert(a.drop_first()[i] == a[i + 1]);
        }
        lemma_extend(a.drop_first(), entries, more);
        assert(piece_within(a[0], entries.len()));
    }
}

/// Scrubbing only adds entities, and none with an empty token.
proof fn lemma_entries_with_extends(
    entries: Seq<Scrubbed>,
    class: EntityClass,
    original: Seq<char>,
)
    requires
        redactor::numbered(entries),
    ensures
        entries.is_prefix_of(
            redactor::entries_with(entries, class, original),
        ),
        ({
            let after = redactor::entries_with(entries, class, original);
            let k = redactor::entry_index(after, class, original, 0);
            0 <= k < after.len() && after[k].original == original && after[k].class == class
        }),
        redactor::numbered(
            redactor::entries_with(entries, class, original),
        ),
{
    let after = redactor::entries_with(entries, class, original);
    redactor::lemma_entries_with_numbered(entries, class, original);
    redactor::lemma_entry_index_props(entries, class, original, 0);
    redactor::lemma_entry_index_props(after, class, original, 0);
    let k = redactor::entry_index(after, class, original, 0);
    if k >= after.len() {
        assert(after[after.len() - 1].original == original);
        assert(false);
    }
}

/// Numbered entities have tokens that are not empty.
proof fn lemma_tokens_shown(entries: Seq<Scrubbed>)
    requires
        redactor::numbered(entries),
    ensures
        forall|i: int| 0 <= i < entries.len() ==> (#[trigger] entries[i]).token.len() > 0,
{
    assert forall|i: int| 0 <= i < entries.len() implies (#[trigger] entries[i]).token.len() > 0 by {
        let c = entries[i].class;
        redactor::lemma_token_shape(
            c,
            redactor::class_count(entries.take(i), c) + 1,
        );
    }
}

/// An unmarked stretch of the shown text is a stretch of plain pieces: the
/// index of its first piece.
proof fn lemma_find_plain(a: Seq<Piece>, entries: Seq<Scrubbed>, s: int, e: int) -> (i: int)
    requires
        pieces_of(a, entries),
        0 <= s < e <= shown(a, entries).len(),
        forall|p: int| s <= p < e ==> !#[trigger] piece_marks(a, entries)[p],
    ensures
        0 <= i,
        i + (e - s) <= a.len(),
        shown(a.take(i), entries) == shown(a, entries).take(s),
        shown(a.subrange(i, i + (e - s)), entries) == shown(a, entries).subrange(s, e),
        shown(a.skip(i + (e - s)), entries) == shown(a, entries).skip(e),
        source(a.subrange(i, i + (e - s)), entries) == shown(a, entries).subrange(s, e),
        piece_marks(a.take(i), entries) == piece_marks(a, entries).take(s),
        piece_marks(a.skip(i + (e - s)), entries) == piece_marks(a, entries).skip(e),
        token_count(a.subrange(i, i + (e - s))) == 0,
    decreases a.len(), e,
{
    let t = shown(a, entries);
    let m = piece_marks(a, entries);
    lemma_marks_len(a, entries);
    let w = piece_shown(a[0], entries).len() as int;
    let b = a.drop_first();
    lemma_marks_len(b, entries);
    assert forall|i: int| 0 <= i < b.len() implies piece_within(
        #[trigger] b[i],
        entries.len(),
    ) by {
        assert(b[i] == a[i + 1]);
    }
    if s == 0 {
        assert(!m[0]);
        assert(a[0] is Plain) by {
            if a[0] is Token {
                assert(piece_within(a[0], entries.len()));
                assert(m[0]);
            }
        }
        assert(w == 1);
        assert(a.take(0) =~= Seq::empty());
        if e == 1 {
            assert(a.subrange(0, 1) =~= seq![a[0]]);
            lemma_single(a[0], entries);
            assert(shown(seq![a[0]], entries) =~= t.subrange(0, 1));
            assert(source(seq![a[0]], entries) =~= t.subrange(0, 1));
            assert(a.skip(1) =~= b);
            assert(shown(b, entries) =~= t.skip(1));
            assert(piece_marks(b, entries) =~= m.skip(1));
            assert(t.take(0) =~= Seq::empty());
            assert(m.take(0) =~= Seq::empty());
            0
        } else {
            assert forall|p: int| 0 <= p < e - 1 implies !#[trigger] piece_marks(b, entries)[p] by {
                assert(piece_marks(b, entries)[p] == m[p + 1]);
            }
            let i = lemma_find_plain(b, entries, 0, e - 1);
            lemma_empty_prefix(b, entries, i);
            let first = a.subrange(0, e);
            assert(first.drop_first() =~= b.subrange(0, e - 1));
            assert(a.skip(e) =~= b.skip(e - 1));
            assert(first[0] == a[0]);
            assert(shown(first, entries) =~= t.subrange(0, e)) by {
                assert(shown(b, entries).subrange(0, e - 1) =~= t.subrange(1, e));
                assert(seq![t[0]] + t.subrange(1, e) =~= t.subrange(0, e));
            }
            assert(source(first, entries) =~= t.subrange(0, e)) by {
                assert(shown(b, entries).subrange(0, e - 1) =~= t.subrange(1, e));
                assert(seq![t[0]] + t.subrange(1, e) =~= t.subrange(0, e));
            }
            assert(shown(b, entries).skip(e - 1) =~= t.skip(e));
            assert(piece_marks(b, entries).skip(e - 1) =~= m.skip(e));
            assert(t.take(0) =~= Seq::empty());
            assert(m.take(0) =~= Seq::empty());
            0
        }
    } else {
        assert(w <= s) by {
            if s < w {
                assert(a[0] is Token) by {
                    if a[0] is Plain {
                        assert(w == 1);
                    }
                }
                assert(m[s]);
            }
        }
        assert(w > 0) by {
            if a[0] is Token {
                assert(piece_within(a[0], entries.len()));
            }
        }
        assert forall|p: int| s - w <= p < e - w implies !#[trigger] piece_marks(b, entries)[p] by {
            assert(piece_marks(b, entries)[p] == m[p + w]);
        }
        let i = lemma_find_plain(b, entries, s - w, e - w);
        let n = e - s;
        assert(a.take(i + 1).drop_first() =~= b.take(i));
        assert(a.subrange(i + 1, i + 1 + n) =~= b.subrange(i, i + n));
        assert(a.skip(i + 1 + n) =~= b.skip(i + n));
        assert(a.take(i + 1)[0] == a[0]);
        assert(shown(a.take(i + 1), entries) =~= t.take(s)) by {
            assert(shown(b, entries).take(s - w) =~= t.subrange(w, s));
            assert(piece_shown(a[0], entries) =~= t.take(w));
            assert(t.take(w) + t.subrange(w, s) =~= t.take(s));
        }
        assert(piece_marks(a.take(i + 1), entries) =~= m.take(s)) by {
            assert(piece_marks(b, entries).take(s - w) =~= m.subrange(w, s));
            assert(m.take(w) + m.subrange(w, s) =~= m.take(s));
            assert(Seq::new(w as nat, |k: int| a[0] is Token) =~= m.take(w));
        }
        assert(shown(b, entries).subrange(s - w, e - w) =~= t.subrange(s, e));
        assert(shown(b, entries).skip(e - w) =~= t.skip(e));
        assert(piece_marks(b, entries).skip(e - w) =~= m.skip(e));
        i + 1
    }
}

/// Pieces that show nothing are none.
proof fn lemma_empty_prefix(a: Seq<Piece>, entries: Seq<Scrubbed>, i: int)
    requires
        pieces_of(a, entries),
        0 <= i <= a.len(),
        shown(a.take(i), entries).len() == 0,
    ensures
        i == 0,
{
    if i > 0 {
        let b = a.take(i);
        assert(b[0] == a[0]);
        if a[0] is Token {
            assert(piece_within(a[0], entries.len()));
        }
        assert(piece_shown(b[0], entries).len() > 0);
    }
}

// ---------------------------------------------------------------------------
// Scrubbing as a change of pieces
// ---------------------------------------------------------------------------

/// Scrubbing only adds entities.
proof fn lemma_substitute_extends(
    text: Seq<char>,
    spans: Seq<(int, int)>,
    class: EntityClass,
    entries: Seq<Scrubbed>,
    from: int,
)
    requires
        redactor::numbered(entries),
    ensures
        entries.is_prefix_of(redactor::substitute(text, spans, class, entries, from).entries),
    decreases spans.len(),
{
    if spans.len() > 0 {
        let original = text.subrange(spans[0].0, spans[0].1);
        lemma_entries_with_extends(entries, class, original);
        let after = redactor::entries_with(entries, class, original);
        lemma_substitute_extends(text, spans.drop_first(), class, after, spans[0].1);
        assert(entries.is_prefix_of(after));
    }
}

/// Scrubbing clear spans of a text made of pieces gives a text made of pieces
/// that stand for the same.
#[verifier::rlimit(80)]
#[verifier::spinoff_prover]
proof fn lemma_substitute_pieces(
    text: Seq<char>,
    marks: Seq<bool>,
    spans: Seq<(int, int)>,
    class: EntityClass,
    entries: Seq<Scrubbed>,
    from: int,
    a: Seq<Piece>,
) -> (r: Seq<Piece>)
    requires
        redactor::numbered(entries),
        0 <= from <= text.len(),
        text.len() == marks.len(),
        pattern::spans_in(spans, from, text.len() as int),
        spans_clear(spans, marks),
        pieces_of(a, entries),
        shown(a, entries) == text.skip(from),
        piece_marks(a, entries) == marks.skip(from),
    ensures
        ({
            let done = redactor::substitute(text, spans, class, entries, from);
            &&& pieces_of(r, done.entries)
            &&& shown(r, done.entries) == done.text
            &&& source(r, done.entries) == source(a, entries)
            &&& piece_marks(r, done.entries) == substitute_marks(
                marks,
                text,
                spans,
                class,
                entries,
                from,
            )
            &&& token_count(r) + entries.len() >= token_count(a) + done.entries.len()
        }),
    decreases spans.len(),
{
    if spans.len() == 0 {
        a
    } else {
        let s = spans[0].0;
        let e = spans[0].1;
        let n = e - s;
        let rest_spans = spans.drop_first();
        assert(s < e <= text.len() && from <= s);
        let original = text.subrange(s, e);
        let after = redactor::entries_with(entries, class, original);
        let k = redactor::entry_index(after, class, original, 0);
        lemma_entries_with_extends(entries, class, original);
        lemma_tokens_shown(after);
        assert forall|p: int| s - from <= p < e - from implies !#[trigger] piece_marks(
            a,
            entries,
        )[p] by {
            assert(marks.skip(from)[p] == marks[p + from]);
        }
        let i = lemma_find_plain(a, entries, s - from, e - from);
        let head = a.take(i);
        let mid = a.subrange(i, i + n);
        let tail = a.skip(i + n);
        assert(text.skip(from).take(s - from) =~= text.subrange(from, s));
        assert(text.skip(from).subrange(s - from, e - from) =~= original);
        assert(text.skip(from).skip(e - from) =~= text.skip(e));
        assert(marks.skip(from).take(s - from) =~= marks.subrange(from, s));
        assert(marks.skip(from).skip(e - from) =~= marks.skip(e));
        assert forall|j: int| 0 <= j < head.len() implies piece_within(
            #[trigger] head[j],
            entries.len(),
        ) by {
            assert(head[j] == a[j]);
        }
        assert forall|j: int| 0 <= j < tail.len() implies piece_within(
            #[trigger] tail[j],
            entries.len(),
        ) by {
            assert(tail[j] == a[j + i + n]);
        }
        lemma_extend(head, entries, after);
        lemma_extend(tail, entries, after);
        assert(pattern::spans_in(rest_spans, e, text.len() as int)) by {
            assert forall|j: int| 0 <= j < rest_spans.len() implies e <= (
            #[trigger] rest_spans[j]).0 <= rest_spans[j].1 <= text.len() by {
                assert(rest_spans[j] == spans[j + 1]);
            }
            assert forall|j: int, l: int| 0 <= j < l < rest_spans.len() implies (
            #[trigger] rest_spans[j]).1 <= (#[trigger] rest_spans[l]).0 by {
                assert(rest_spans[j] == spans[j + 1]);
                assert(rest_spans[l] == spans[l + 1]);
            }
        }
        assert(spans_clear(rest_spans, marks)) by {
            assert forall|j: int| 0 <= j < rest_spans.len() implies (#[trigger] rest_spans[j]).0
                < rest_spans[j].1 && forall|p: int|
                rest_spans[j].0 <= p < rest_spans[j].1 ==> !#[trigger] marks[p] by {
                assert(rest_spans[j] == spans[j + 1]);
            }
        }
        assert forall|j: int| 0 <= j < tail.len() implies piece_within(
            #[trigger] tail[j],
            after.len(),
        ) by {
            assert(piece_within(tail[j], entries.len()));
        }
        let more = lemma_substitute_pieces(text, marks, rest_spans, class, after, e, tail);
        let done = redactor::substitute(text, spans, class, entries, from);
        let rest = redactor::substitute(text, rest_spans, class, after, e);
        assert(done.entries == rest.entries);
        lemma_substitute_extends(text, rest_spans, class, after, e);
        assert(after.is_prefix_of(done.entries));
        assert(pieces_of(head, after)) by {
            assert forall|j: int| 0 <= j < head.len() implies piece_within(
                #[trigger] head[j],
                after.len(),
            ) by {
                assert(piece_within(head[j], entries.len()));
            }
        }
        lemma_extend(head, after, done.entries);
        let one = seq![Piece::Token(k)];
        lemma_single(Piece::Token(k), done.entries);
        assert(done.entries[k] == after[k]);
        let r = head + one + more;
        lemma_join(head, one, done.entries);
        lemma_join(head + one, more, done.entries);
        assert forall|j: int| 0 <= j < r.len() implies piece_within(
            #[trigger] r[j],
            done.entries.len(),
        ) by {
            if j < i {
                assert(r[j] == head[j]);
                assert(piece_within(head[j], entries.len()));
            } else if j > i {
                assert(r[j] == more[j - i - 1]);
            }
        }
        // What the old pieces stand for, cut at the span.
        assert(a =~= head + mid + tail);
        lemma_join(head, mid, entries);
        lemma_join(head + mid, tail, entries);
        assert(token_count(a) == token_count(head) + token_count(tail));
        assert(token_count(r) == token_count(head) + 1 + token_count(more));
        assert(after.len() <= entries.len() + 1);
        r
    }
}

/// The pieces make up the redaction, and stand for `input`.
spec fn made_of(m: Marked, a: Seq<Piece>, input: Seq<char>) -> bool {
    &&& redactor::numbered(m.state.entries)
    &&& pieces_of(a, m.state.entries)
    &&& shown(a, m.state.entries) == m.state.text
    &&& piece_marks(a, m.state.entries) == m.marks
    &&& source(a, m.state.entries) == input
    &&& token_count(a) >= m.state.entries.len()
    &&& originals_filled(m.state.entries)
}

/// No entity stands for nothing.
spec fn originals_filled(entries: Seq<Scrubbed>) -> bool {
    forall|i: int| 0 <= i < entries.len() ==> (#[trigger] entries[i]).original.len() > 0
}

/// Scrubbing spans that hold something adds no entity that stands for nothing.
proof fn lemma_originals_filled(
    text: Seq<char>,
    spans: Seq<(int, int)>,
    class: EntityClass,
    entries: Seq<Scrubbed>,
    from: int,
)
    requires
        originals_filled(entries),
        forall|i: int|
            0 <= i < spans.len() ==> 0 <= (#[trigger] spans[i]).0 < spans[i].1 <= text.len(),
    ensures
        originals_filled(redactor::substitute(text, spans, class, entries, from).entries),
    decreases spans.len(),
{
    if spans.len() > 0 {
        let original = text.subrange(spans[0].0, spans[0].1);
        let after = redactor::entries_with(entries, class, original);
        let rest = spans.drop_first();
        assert(originals_filled(after));
        assert forall|i: int| 0 <= i < rest.len() implies 0 <= (#[trigger] rest[i]).0 < rest[i].1
            <= text.len() by {
            assert(rest[i] == spans[i + 1]);
        }
        lemma_originals_filled(text, rest, class, after, spans[0].1);
    }
}

/// There are no more entities than characters that they stand for.
proof fn lemma_tokens_fit(a: Seq<Piece>, entries: Seq<Scrubbed>)
    requires
        pieces_of(a, entries),
        originals_filled(entries),
    ensures
        token_count(a) <= source(a, entries).len(),
    decreases a.len(),
{
    if a.len() > 0 {
        let b = a.drop_first();
        assert(piece_within(a[0], entries.len()));
        assert forall|i: int| 0 <= i < b.len() implies piece_within(
            #[trigger] b[i],
            entries.len(),
        ) by {
            assert(b[i] == a[i + 1]);
        }
        lemma_tokens_fit(b, entries);
        assert(piece_source(a[0], entries).len() > 0);
    }
}

/// A pass over clear spans keeps a redaction made of pieces.
proof fn lemma_pass(
    m: Marked,
    a: Seq<Piece>,
    input: Seq<char>,
    spans: Seq<(int, int)>,
    class: EntityClass,
) -> (r: Seq<Piece>)
    requires
        made_of(m, a, input),
        pattern::spans_in(spans, 0, m.state.text.len() as int),
        spans_clear(spans, m.marks),
    ensures
        made_of(scrub_marked(m, spans, class), r, input),
{
    lemma_marks_len(a, m.state.entries);
    assert(m.state.text.skip(0) =~= m.state.text);
    assert(m.marks.skip(0) =~= m.marks);
    redactor::lemma_substitute_numbered(m.state.text, spans, class, m.state.entries, 0);
    lemma_originals_filled(m.state.text, spans, class, m.state.entries, 0);
    lemma_substitute_pieces(m.state.text, m.marks, spans, class, m.state.entries, 0, a)
}

/// The passes over the names keep a redaction made of pieces.
proof fn lemma_names_pass(
    names: Seq<Seq<char>>,
    m: Marked,
    a: Seq<Piece>,
    input: Seq<char>,
) -> (r: Seq<Piece>)
    requires
        made_of(m, a, input),
        names_clear(names, m),
    ensures
        made_of(names_marked(names, m), r, input),
        names_marked(names, m).state == redactor::scrub_names(names, m.state),
    decreases names.len(),
{
    if names.len() == 0 {
        a
    } else {
        let spans = redactor::name_spans(m.state.text, names[0]);
        redactor::lemma_name_spans(m.state.text, names[0]);
        let b = lemma_pass(m, a, input, spans, EntityClass::Person);
        lemma_names_pass(
            names.drop_first(),
            scrub_marked(m, spans, EntityClass::Person),
            b,
            input,
        )
    }
}

/// A character as a piece.
spec fn plain_piece(c: char) -> Piece {
    Piece::Plain(c)
}

/// A text as plain pieces.
spec fn plain(t: Seq<char>) -> Seq<Piece>
    decreases t.len(),
{
    if t.len() == 0 {
        Seq::empty()
    } else {
        seq![plain_piece(t[0])] + plain(t.drop_first())
    }
}

/// Plain pieces show and stand for their text.
proof fn lemma_plain(t: Seq<char>, entries: Seq<Scrubbed>)
    ensures
        shown(plain(t), entries) == t,
        source(plain(t), entries) == t,
        piece_marks(plain(t), entries) == Seq::new(t.len(), |i: int| false),
        forall|i: int| 0 <= i < plain(t).len() ==> (#[trigger] plain(t)[i]) is Plain,
    decreases t.len(),
{
    if t.len() == 0 {
        assert(plain(t).len() == 0);
        assert(shown(plain(t), entries) =~= t);
        assert(source(plain(t), entries) =~= t);
        assert(piece_marks(plain(t), entries) =~= Seq::new(t.len(), |i: int| false));
    } else {
        let u = t.drop_first();
        lemma_plain(u, entries);
        assert(plain(t).drop_first() =~= plain(u));
        assert forall|i: int| 0 <= i < plain(t).len() implies (#[trigger] plain(t)[i]) is Plain by {
            if i > 0 {
                assert(plain(t)[i] == plain(u)[i - 1]);
            }
        }
        assert(shown(plain(t), entries) =~= t);
        assert(source(plain(t), entries) =~= t);
        assert(piece_marks(plain(t), entries) =~= Seq::new(t.len(), |i: int| false));
    }
}

// ---------------------------------------------------------------------------
// Putting the originals back
// ---------------------------------------------------------------------------

/// The pieces with the tokens of entity `j` replaced by its original.
spec fn uncover(a: Seq<Piece>, entries: Seq<Scrubbed>, j: int) -> Seq<Piece>
    decreases a.len(),
{
    if a.len() == 0 {
        Seq::empty()
    } else if a[0] == Piece::Token(j) {
        plain(entries[j].original) + uncover(a.drop_first(), entries, j)
    } else {
        seq![a[0]] + uncover(a.drop_first(), entries, j)
    }
}

/// Uncovered pieces stand for the same text, and hold the same other tokens.
proof fn lemma_uncover(a: Seq<Piece>, entries: Seq<Scrubbed>, j: int)
    requires
        pieces_of(a, entries),
    ensures
        pieces_of(uncover(a, entries, j), entries),
        source(uncover(a, entries, j), entries) == source(a, entries),
        forall|i: int|
            0 <= i < uncover(a, entries, j).len() ==> ((#[trigger] uncover(
                a,
                entries,
                j,
            )[i]) is Plain || (uncover(a, entries, j)[i] != Piece::Token(j) && a.contains(
                uncover(a, entries, j)[i],
            ))),
    decreases a.len(),
{
    if a.len() > 0 {
        let b = a.drop_first();
        assert forall|i: int| 0 <= i < b.len() implies piece_within(
            #[trigger] b[i],
            entries.len(),
        ) by {
            assert(b[i] == a[i + 1]);
        }
        lemma_uncover(b, entries, j);
        let rest = uncover(b, entries, j);
        let u = uncover(a, entries, j);
        assert(piece_within(a[0], entries.len()));
        let first = if a[0] == Piece::Token(j) {
            plain(entries[j].original)
        } else {
            seq![a[0]]
        };
        lemma_plain(entries[j].original, entries);
        lemma_single(a[0], entries);
        lemma_join(first, rest, entries);
        assert(u == first + rest);
        assert forall|i: int| 0 <= i < u.len() implies ((#[trigger] u[i]) is Plain || (u[i]
            != Piece::Token(j) && a.contains(u[i]))) by {
            if i >= first.len() {
                assert(u[i] == rest[i - first.len()]);
                if !(u[i] is Plain) {
                    assert(b.contains(u[i]));
                    let x = choose|x: int| 0 <= x < b.len() && b[x] == u[i];
                    assert(a[x + 1] == u[i]);
                }
            } else {
                assert(u[i] == first[i]);
                assert(a[0] == a[0]);
                if a[0] != Piece::Token(j) {
                    assert(a.contains(a[0]));
                }
            }
        }
        assert forall|i: int| 0 <= i < u.len() implies piece_within(
            #[trigger] u[i],
            entries.len(),
        ) by {
            if i >= first.len() {
                assert(u[i] == rest[i - first.len()]);
            } else {
                assert(u[i] == first[i]);
            }
        }
    }
}

/// The text has a token's brackets: one at each end, none inside.
spec fn bracketed(k: Seq<char>) -> bool {
    &&& k.len() >= 2
    &&& k[0] == '['
    &&& k.last() == ']'
    &&& forall|i: int| 0 < i < k.len() ==> #[trigger] k[i] != '['
    &&& forall|i: int| 0 <= i < k.len() - 1 ==> #[trigger] k[i] != ']'
}

/// Every entity has a bracketed token.
proof fn lemma_bracketed(entries: Seq<Scrubbed>)
    requires
        redactor::numbered(entries),
    ensures
        forall|i: int| 0 <= i < entries.len() ==> bracketed((#[trigger] entries[i]).token),
{
    assert forall|i: int| 0 <= i < entries.len() implies bracketed(
        (#[trigger] entries[i]).token,
    ) by {
        let c = entries[i].class;
        redactor::lemma_token_shape(c, redactor::class_count(entries.take(i), c) + 1);
    }
}

/// Where a token stands at the start of the shown text but not as a piece, it
/// stands in the text that the pieces stand for.
proof fn lemma_plain_occurrence(a: Seq<Piece>, entries: Seq<Scrubbed>, k: Seq<char>, n: int)
    requires
        pieces_of(a, entries),
        forall|i: int| 0 <= i < entries.len() ==> bracketed((#[trigger] entries[i]).token),
        bracketed(k),
        1 <= n <= k.len(),
        k.len() - n <= shown(a, entries).len(),
        shown(a, entries).take(k.len() - n) == k.skip(n),
    ensures
        k.len() - n <= source(a, entries).len(),
        source(a, entries).take(k.len() - n) == k.skip(n),
    decreases k.len() - n,
{
    if n < k.len() {
        let t = shown(a, entries);
        let b = a.drop_first();
        assert(t[0] == t.take(k.len() - n)[0]);
        assert(t[0] == k[n]);
        assert(a.len() > 0);
        assert(piece_within(a[0], entries.len()));
        if a[0] is Token {
            assert(bracketed(entries[a[0]->Token_0].token));
            assert(t[0] == '[');
            assert(false);
        }
        assert forall|i: int| 0 <= i < b.len() implies piece_within(
            #[trigger] b[i],
            entries.len(),
        ) by {
            assert(b[i] == a[i + 1]);
        }
        let m = k.len() - n;
        assert(shown(b, entries).take(m - 1) =~= k.skip(n + 1)) by {
            assert forall|i: int| 0 <= i < m - 1 implies shown(b, entries)[i] == k[n + 1 + i] by {
                assert(shown(b, entries)[i] == t[i + 1]);
                assert(t.take(m)[i + 1] == k.skip(n)[i + 1]);
            }
        }
        lemma_plain_occurrence(b, entries, k, n + 1);
        let s = source(a, entries);
        assert(s[0] == t[0]);
        assert(s.take(m) =~= k.skip(n)) by {
            assert forall|i: int| 0 <= i < m implies s[i] == k[n + i] by {
                if i > 0 {
                    assert(s[i] == source(b, entries)[i - 1]);
                    assert(source(b, entries).take(m - 1)[i - 1] == k.skip(n + 1)[i - 1]);
                }
            }
        }
    } else {
        assert(k.skip(n) =~= Seq::empty());
        assert(source(a, entries).take(0) =~= Seq::empty());
    }
}

/// Replacing leaves a stretch in which the key does not start as it is.
proof fn lemma_replace_skips(t: Seq<char>, k: Seq<char>, q: Seq<char>, n: int)
    requires
        k.len() > 0,
        0 <= n <= t.len(),
        forall|i: int| 0 <= i < n ==> !#[trigger] text::occurs_at(t, k, i),
    ensures
        text::replace_all(t, k, q) == t.take(n) + text::replace_all(t.skip(n), k, q),
    decreases n,
{
    if n == 0 {
        assert(t.skip(0) =~= t);
        assert(t.take(0) + text::replace_all(t, k, q) =~= text::replace_all(t, k, q));
    } else {
        assert(!text::occurs_at(t, k, 0));
        let u = t.drop_first();
        assert forall|i: int| 0 <= i < n - 1 implies !#[trigger] text::occurs_at(u, k, i) by {
            text::lemma_occurs_in_suffix(t, k, 1, i + 1);
            assert(t.skip(1) =~= u);
        }
        lemma_replace_skips(u, k, q, n - 1);
        assert(u.skip(n - 1) =~= t.skip(n));
        assert(seq![t[0]] + u.take(n - 1) =~= t.take(n));
        assert(text::replace_all(t, k, q) =~= t.take(n) + text::replace_all(t.skip(n), k, q));
    }
}

/// Replacing the token of entity `j` by its original uncovers its pieces.
#[verifier::rlimit(60)]
#[verifier::spinoff_prover]
proof fn lemma_replace_uncovers(a: Seq<Piece>, entries: Seq<Scrubbed>, j: int)
    requires
        pieces_of(a, entries),
        redactor::numbered(entries),
        0 <= j < entries.len(),
        forall|p: int| !#[trigger] text::occurs_at(source(a, entries), entries[j].token, p),
    ensures
        text::replace_all(shown(a, entries), entries[j].token, entries[j].original) == shown(
            uncover(a, entries, j),
            entries,
        ),
    decreases a.len(),
{
    let k = entries[j].token;
    let q = entries[j].original;
    let t = shown(a, entries);
    lemma_bracketed(entries);
    assert(bracketed(k));
    if a.len() == 0 {
        assert(!text::occurs_at(t, k, 0));
    } else {
        let b = a.drop_first();
        let first = piece_shown(a[0], entries);
        let w = first.len() as int;
        let src = piece_source(a[0], entries).len() as int;
        assert(piece_within(a[0], entries.len()));
        assert forall|i: int| 0 <= i < b.len() implies piece_within(
            #[trigger] b[i],
            entries.len(),
        ) by {
            assert(b[i] == a[i + 1]);
        }
        assert(source(a, entries).skip(src) =~= source(b, entries));
        assert forall|p: int| !#[trigger] text::occurs_at(source(b, entries), k, p) by {
            if text::occurs_at(source(b, entries), k, p) {
                text::lemma_occurs_in_suffix(source(a, entries), k, src, src + p);
                assert(text::occurs_at(source(a, entries), k, src + p));
            }
        }
        lemma_replace_uncovers(b, entries, j);
        let rest = uncover(b, entries, j);
        assert(t.skip(w) =~= shown(b, entries));
        if a[0] == Piece::Token(j) {
            assert(t.subrange(0, k.len() as int) =~= k);
            assert(text::occurs_at(t, k, 0));
            lemma_plain(q, entries);
            lemma_join(plain(q), rest, entries);
        } else {
            assert forall|i: int| 0 <= i < w implies !#[trigger] text::occurs_at(t, k, i) by {
                if text::occurs_at(t, k, i) {
                    let hit = t.subrange(i, i + k.len());
                    assert(hit[0] == t[i]);
                    assert(t[i] == first[i]);
                    match a[0] {
                        Piece::Plain(c) => {
                            assert(t.skip(1) =~= shown(b, entries));
                            assert(shown(b, entries).take(k.len() - 1) =~= k.skip(1)) by {
                                assert forall|x: int| 0 <= x < k.len() - 1 implies shown(
                                    b,
                                    entries,
                                )[x] == k[x + 1] by {
                                    assert(shown(b, entries)[x] == t[x + 1]);
                                    assert(hit[x + 1] == t[x + 1]);
                                }
                            }
                            lemma_plain_occurrence(b, entries, k, 1);
                            let s = source(a, entries);
                            assert(s.subrange(0, k.len() as int) =~= k) by {
                                assert forall|x: int| 0 <= x < k.len() implies s[x] == k[x] by {
                                    if x > 0 {
                                        assert(s[x] == source(b, entries)[x - 1]);
                                        assert(source(b, entries).take(k.len() - 1)[x - 1]
                                            == k.skip(1)[x - 1]);
                                    }
                                }
                            }
                            assert(text::occurs_at(s, k, 0));
                        },
                        Piece::Token(y) => {
                            assert(bracketed(entries[y].token));
                            assert(i == 0);
                            redactor::lemma_tokens_distinct(entries);
                            // Both end at the first closing bracket of the text.
                            if k.len() < w {
                                assert(hit[k.len() - 1] == t[k.len() - 1]);
                                assert(t[k.len() - 1] == first[k.len() - 1]);
                            } else if w < k.len() {
                                assert(t[w - 1] == first[w - 1]);
                                assert(hit[w - 1] == t[w - 1]);
                            } else {
                                assert(first =~= k) by {
                                    assert forall|x: int| 0 <= x < w implies first[x] == k[x] by {
                                        assert(hit[x] == t[x]);
                                    }
                                }
                            }
                        },
                    }
                }
            }
            lemma_replace_skips(t, k, q, w);
            assert(t.take(w) =~= first);
            lemma_single(a[0], entries);
            lemma_join(seq![a[0]], rest, entries);
        }
    }
}

/// Every token of the pieces is one of those in `order`.
spec fn tokens_among(a: Seq<Piece>, order: Seq<usize>) -> bool {
    forall|i: int|
        0 <= i < a.len() ==> ((#[trigger] a[i]) is Plain || order.contains(
            a[i]->Token_0 as usize,
        ))
}

/// Pieces without a token show what they stand for.
proof fn lemma_all_plain(a: Seq<Piece>, entries: Seq<Scrubbed>)
    requires
        forall|i: int| 0 <= i < a.len() ==> (#[trigger] a[i]) is Plain,
    ensures
        shown(a, entries) == source(a, entries),
    decreases a.len(),
{
    if a.len() > 0 {
        assert(a[0] is Plain);
        assert forall|i: int| 0 <= i < a.drop_first().len() implies (
        #[trigger] a.drop_first()[i]) is Plain by {
            assert(a.drop_first()[i] == a[i + 1]);
        }
        lemma_all_plain(a.drop_first(), entries);
    }
}

/// Replacing all tokens, in whatever order, shows what the pieces stand for.
proof fn lemma_restore(a: Seq<Piece>, entries: Seq<Scrubbed>, order: Seq<usize>)
    requires
        pieces_of(a, entries),
        redactor::numbered(entries),
        forall|i: int| 0 <= i < order.len() ==> (#[trigger] order[i]) < entries.len(),
        entries.len() <= usize::MAX,
        tokens_among(a, order),
        forall|i: int, p: int|
            0 <= i < entries.len() ==> !#[trigger] text::occurs_at(
                source(a, entries),
                entries[i].token,
                p,
            ),
    ensures
        redactor::restore(shown(a, entries), redactor::reverse_pairs(entries), order) == source(
            a,
            entries,
        ),
    decreases order.len(),
{
    if order.len() == 0 {
        assert forall|i: int| 0 <= i < a.len() implies (#[trigger] a[i]) is Plain by {}
        lemma_all_plain(a, entries);
    } else {
        let j = order[0] as int;
        let rest = order.drop_first();
        assert(order[0] < entries.len());
        lemma_replace_uncovers(a, entries, j);
        lemma_uncover(a, entries, j);
        let u = uncover(a, entries, j);
        assert(tokens_among(u, rest)) by {
            assert forall|i: int| 0 <= i < u.len() implies ((#[trigger] u[i]) is Plain
                || rest.contains(u[i]->Token_0 as usize)) by {
                if !(u[i] is Plain) {
                    assert(piece_within(u[i], entries.len()));
                    let x = choose|x: int| 0 <= x < a.len() && a[x] == u[i];
                    assert(order.contains(a[x]->Token_0 as usize));
                    let y = choose|y: int|
                        0 <= y < order.len() && order[y] == a[x]->Token_0 as usize;
                    assert(y != 0) by {
                        if y == 0 {
                            assert(u[i] == Piece::Token(j));
                        }
                    }
                    assert(rest[y - 1] == order[y]);
                }
            }
        }
        assert forall|i: int| 0 <= i < rest.len() implies (#[trigger] rest[i])
            < entries.len() by {
            assert(rest[i] == order[i + 1]);
        }
        lemma_restore(u, entries, rest);
    }
}

/// Putting the originals back into a scrubbed text gives the text that was
/// scrubbed, in whatever order the tokens are replaced; provided that none of
/// the tokens stood in that text before, and that no pass matched inside a
/// token of an earlier one.
pub proof fn un_redact_restores_input(
    names: Seq<Seq<char>>,
    input: Seq<char>,
    order: Seq<usize>,
)
    requires
        tokens_are_fresh(names, input),
        tokens_stay_whole(names, input),
        text::heaviest_first(
            order,
            redactor::key_weights(
                redactor::reverse_pairs(redactor::redaction(names, input).entries),
            ),
        ),
        redactor::redaction(names, input).entries.len() <= usize::MAX,
    ensures
        redactor::restore(
            redactor::redaction(names, input).text,
            redactor::reverse_pairs(redactor::redaction(names, input).entries),
            order,
        ) == input,
{
    let start = unmarked(input);
    let a0 = plain(input);
    lemma_plain(input, start.state.entries);
    assert(made_of(start, a0, input));
    let a1 = lemma_names_pass(names, start, a0, input);
    let named = names_marked(names, start);
    let emails = pattern::pattern_spans(EMAIL_PATTERN@, named.state.text);
    pattern::lemma_pattern_spans(EMAIL_PATTERN@, named.state.text);
    let a2 = lemma_pass(named, a1, input, emails, EntityClass::Email);
    let mailed = scrub_marked(named, emails, EntityClass::Email);
    let phones = pattern::pattern_spans(PHONE_PATTERN@, mailed.state.text);
    pattern::lemma_pattern_spans(PHONE_PATTERN@, mailed.state.text);
    let a3 = lemma_pass(mailed, a2, input, phones, EntityClass::Phone);
    let done = redactor::redaction(names, input);
    assert(made_of(scrub_marked(mailed, phones, EntityClass::Phone), a3, input));
    assert(tokens_among(a3, order)) by {
        assert forall|i: int| 0 <= i < a3.len() implies ((#[trigger] a3[i]) is Plain
            || order.contains(a3[i]->Token_0 as usize)) by {
            assert(piece_within(a3[i], done.entries.len()));
            if a3[i] is Token {
                let x = a3[i]->Token_0;
                assert(order.contains(x as usize));
            }
        }
    }
    assert forall|i: int, p: int| 0 <= i < done.entries.len() implies !#[trigger] text::occurs_at(
        source(a3, done.entries),
        done.entries[i].token,
        p,
    ) by {}
    lemma_restore(a3, done.entries, order);
}

// ---------------------------------------------------------------------------
// Ordinary texts and names
// ---------------------------------------------------------------------------

/// No token stands in the text.
pub open spec fn holds_no_token(input: Seq<char>) -> bool {
    forall|class: EntityClass, n: nat, p: int|
        !#[trigger] text::occurs_at(input, redactor::token_text(class, n), p)
}

/// What the tokens of a class start with.
pub open spec fn token_start(class: EntityClass) -> Seq<char> {
    "["@ + redactor::class_word(class) + "_"@
}

/// The name can be scrubbed without touching a token: it is an ASCII text without
/// brackets, underscores and digits, and no piece of the word `person`, whatever
/// its case.
pub open spec fn ordinary_name(name: Seq<char>) -> bool {
    &&& name.len() > 0
    &&& text::ascii(name)
    &&& forall|i: int| 0 <= i < name.len() ==> name_char(#[trigger] name[i])
    &&& forall|p: int| !#[trigger] text::occurs_at("person"@, text::ascii_lowercase(name), p)
}

/// No bracket, underscore or digit.
pub open spec fn name_char(c: char) -> bool {
    c != '[' && c != ']' && c != '_' && !('0' <= c <= '9')
}

/// The first number of nine digits: a token with it would hold what the phone
/// pattern matches.
pub open spec fn nine_digits() -> nat {
    100000000
}

/// The power of ten with this exponent.
spec fn ten_to(k: nat) -> nat
    decreases k,
{
    if k == 0 {
        1
    } else {
        10 * ten_to((k - 1) as nat)
    }
}

/// A number below a power of ten has no more digits than the exponent says.
proof fn lemma_decimal_short(n: nat, k: nat)
    requires
        k >= 1,
        n < ten_to(k),
    ensures
        text::decimal(n).len() <= k,
    decreases k,
{
    if n >= 10 {
        assert(ten_to(0) == 1);
        if k == 1 {
            assert(ten_to(1) == 10);
        }
        lemma_decimal_short(n / 10, (k - 1) as nat);
    }
}

/// The parts of a token.
#[verifier::spinoff_prover]
proof fn lemma_token_parts(class: EntityClass, n: nat)
    ensures
        ({
            let t = redactor::token_text(class, n);
            let w = redactor::class_word(class);
            let d = text::decimal(n);
            &&& t.len() == 3 + w.len() + d.len()
            &&& t[0] == '['
            &&& t.last() == ']'
            &&& forall|i: int| 1 <= i <= w.len() ==> #[trigger] t[i] == w[i - 1] && 'A' <= t[i] <= 'Z'
            &&& t[w.len() as int + 1] == '_'
            &&& forall|i: int| w.len() + 2 <= i < t.len() - 1 ==> '0' <= #[trigger] t[i] <= '9'
            &&& text::ascii(t)
        }),
{
    reveal_strlit("[");
    reveal_strlit("]");
    reveal_strlit("_");
    reveal_strlit("PERSON");
    reveal_strlit("EMAIL");
    reveal_strlit("PHONE");
    redactor::lemma_decimal_digits(n);
    let t = redactor::token_text(class, n);
    let w = redactor::class_word(class);
    let d = text::decimal(n);
    assert(t.len() == 3 + w.len() + d.len());
    assert forall|i: int| 1 <= i <= w.len() implies #[trigger] t[i] == w[i - 1] && 'A' <= t[i]
        <= 'Z' by {}
    assert forall|i: int| w.len() + 2 <= i < t.len() - 1 implies '0' <= #[trigger] t[i] <= '9' by {
        assert(t[i] == d[i - w.len() - 2]);
    }
    assert forall|i: int| 0 <= i < t.len() implies (#[trigger] t[i] as u32) < 0x80 by {
        if i == 0 {
            assert(t[i] == '[');
        } else if i == t.len() - 1 {
            assert(t[i] == ']');
        }
    }
}

/// A text in which the start of no token stands holds no token.
pub proof fn no_token_without_its_start(input: Seq<char>)
    requires
        forall|class: EntityClass, p: int|
            !#[trigger] text::occurs_at(input, token_start(class), p),
    ensures
        holds_no_token(input),
{
    assert forall|class: EntityClass, n: nat, p: int| !#[trigger] text::occurs_at(
        input,
        redactor::token_text(class, n),
        p,
    ) by {
        let t = redactor::token_text(class, n);
        let s = token_start(class);
        if text::occurs_at(input, t, p) {
            assert(t.take(s.len() as int) =~= s);
            assert(input.subrange(p, p + s.len()) =~= input.subrange(p, p + t.len()).take(
                s.len() as int,
            ));
            assert(text::occurs_at(input, s, p));
        }
    }
}

/// At the start of the text, no token is reached without an opening bracket.
proof fn lemma_unmarked_start(a: Seq<Piece>, entries: Seq<Scrubbed>, e: int, p: int)
    requires
        pieces_of(a, entries),
        forall|i: int| 0 <= i < entries.len() ==> bracketed((#[trigger] entries[i]).token),
        0 <= p < e <= shown(a, entries).len(),
        forall|x: int| 0 <= x < e ==> #[trigger] shown(a, entries)[x] != '[',
    ensures
        !piece_marks(a, entries)[p],
    decreases a.len(),
{
    let t = shown(a, entries);
    let m = piece_marks(a, entries);
    let b = a.drop_first();
    lemma_marks_len(a, entries);
    lemma_marks_len(b, entries);
    assert(piece_within(a[0], entries.len()));
    assert forall|i: int| 0 <= i < b.len() implies piece_within(
        #[trigger] b[i],
        entries.len(),
    ) by {
        assert(b[i] == a[i + 1]);
    }
    match a[0] {
        Piece::Token(y) => {
            assert(bracketed(entries[y].token));
            assert(t[0] == entries[y].token[0]);
        },
        Piece::Plain(_) => {
            assert(!m[0]);
            assert forall|x: int| 0 <= x < e - 1 implies #[trigger] shown(b, entries)[x] != '[' by {
                assert(shown(b, entries)[x] == t[x + 1]);
            }
            if p > 0 {
                assert(piece_marks(b, entries)[p - 1] == m[p]);
                lemma_unmarked_start(b, entries, e - 1, p - 1);
            }
        },
    }
}

/// A stretch of the shown text without brackets that touches a token lies between
/// its brackets: the index of its entity, and where the stretch starts in it.
#[verifier::spinoff_prover]
proof fn lemma_in_token(a: Seq<Piece>, entries: Seq<Scrubbed>, s: int, e: int, p: int) -> (r: (
    int,
    int,
))
    requires
        pieces_of(a, entries),
        forall|i: int| 0 <= i < entries.len() ==> bracketed((#[trigger] entries[i]).token),
        0 <= s <= p < e <= shown(a, entries).len(),
        piece_marks(a, entries)[p],
        forall|x: int|
            s <= x < e ==> #[trigger] shown(a, entries)[x] != '[' && shown(a, entries)[x] != ']',
    ensures
        0 <= r.0 < entries.len(),
        1 <= r.1,
        r.1 + (e - s) <= entries[r.0].token.len() - 1,
        shown(a, entries).subrange(s, e) == entries[r.0].token.subrange(r.1, r.1 + (e - s)),
    decreases a.len(),
{
    let t = shown(a, entries);
    let m = piece_marks(a, entries);
    let b = a.drop_first();
    let w = piece_shown(a[0], entries).len() as int;
    lemma_marks_len(a, entries);
    lemma_marks_len(b, entries);
    assert(piece_within(a[0], entries.len()));
    assert forall|i: int| 0 <= i < b.len() implies piece_within(
        #[trigger] b[i],
        entries.len(),
    ) by {
        assert(b[i] == a[i + 1]);
    }
    if s >= w {
        assert forall|x: int| s - w <= x < e - w implies #[trigger] shown(b, entries)[x] != '['
            && shown(b, entries)[x] != ']' by {
            assert(shown(b, entries)[x] == t[x + w]);
        }
        assert(piece_marks(b, entries)[p - w] == m[p]);
        let r = lemma_in_token(b, entries, s - w, e - w, p - w);
        assert(shown(b, entries).subrange(s - w, e - w) =~= t.subrange(s, e));
        r
    } else {
        match a[0] {
            Piece::Token(y) => {
                let k = entries[y].token;
                assert(bracketed(k));
                assert(forall|x: int| 0 <= x < w ==> #[trigger] t[x] == k[x]);
                assert(t[0] == '[');
                assert(t[w - 1] == ']');
                assert(s >= 1);
                assert(e <= w - 1);
                assert(t.subrange(s, e) =~= k.subrange(s, e));
                (y, s)
            },
            Piece::Plain(_) => {
                assert(!m[0]);
                assert forall|x: int| 0 <= x < e - 1 implies #[trigger] shown(b, entries)[x]
                    != '[' by {
                    assert(shown(b, entries)[x] == t[x + 1]);
                }
                assert(piece_marks(b, entries)[p - 1] == m[p]);
                lemma_unmarked_start(b, entries, e - 1, p - 1);
                (0, 0)
            },
        }
    }
}

/// Pieces that stand for an ASCII text show one.
proof fn lemma_shown_ascii(a: Seq<Piece>, entries: Seq<Scrubbed>)
    requires
        pieces_of(a, entries),
        redactor::numbered(entries),
        text::ascii(source(a, entries)),
    ensures
        text::ascii(shown(a, entries)),
    decreases a.len(),
{
    if a.len() > 0 {
        let b = a.drop_first();
        let first = piece_source(a[0], entries);
        let src = source(a, entries);
        assert(piece_within(a[0], entries.len()));
        assert forall|i: int| 0 <= i < b.len() implies piece_within(
            #[trigger] b[i],
            entries.len(),
        ) by {
            assert(b[i] == a[i + 1]);
        }
        assert forall|i: int| 0 <= i < source(b, entries).len() implies (#[trigger] source(
            b,
            entries,
        )[i] as u32) < 0x80 by {
            assert(source(b, entries)[i] == src[i + first.len()]);
        }
        lemma_shown_ascii(b, entries);
        let head = piece_shown(a[0], entries);
        assert forall|i: int| 0 <= i < head.len() implies (#[trigger] head[i] as u32) < 0x80 by {
            match a[0] {
                Piece::Plain(c) => {
                    assert(src[0] == c);
                },
                Piece::Token(y) => {
                    let c = entries[y].class;
                    lemma_token_parts(c, redactor::class_count(entries.take(y), c) + 1);
                },
            }
        }
        let t = shown(a, entries);
        assert forall|i: int| 0 <= i < t.len() implies (#[trigger] t[i] as u32) < 0x80 by {
            if i < head.len() {
                assert(t[i] == head[i]);
            } else {
                assert(t[i] == shown(b, entries)[i - head.len()]);
            }
        }
    }
}

/// No entity is of the class.
spec fn none_of(entries: Seq<Scrubbed>, class: EntityClass) -> bool {
    forall|i: int| 0 <= i < entries.len() ==> (#[trigger] entries[i]).class != class
}

/// Scrubbing one class adds no entity of another.
proof fn lemma_none_of(
    text: Seq<char>,
    spans: Seq<(int, int)>,
    class: EntityClass,
    entries: Seq<Scrubbed>,
    from: int,
    other: EntityClass,
)
    requires
        class != other,
        none_of(entries, other),
    ensures
        none_of(redactor::substitute(text, spans, class, entries, from).entries, other),
    decreases spans.len(),
{
    if spans.len() > 0 {
        let original = text.subrange(spans[0].0, spans[0].1);
        let after = redactor::entries_with(entries, class, original);
        assert(none_of(after, other));
        lemma_none_of(text, spans.drop_first(), class, after, spans[0].1, other);
    }
}

/// In an ASCII text a name is found where its characters stand, whatever their
/// case.
proof fn lemma_ascii_spans(hay: Seq<char>, name: Seq<char>)
    requires
        text::ascii(hay),
        text::ascii(name),
    ensures
        ({
            let all = redactor::name_spans(hay, name);
            forall|i: int|
                0 <= i < all.len() ==> (#[trigger] all[i]).1 == all[i].0 + name.len()
                    && text::occurs_at(
                    text::ascii_lowercase(hay),
                    text::ascii_lowercase(name),
                    all[i].0,
                )
        }),
{
    let low = text::ascii_lowercase(hay);
    let needle = text::ascii_lowercase(name);
    let all = redactor::name_spans(hay, name);
    redactor::lemma_name_spans_from(hay, needle, 0);
    assert forall|i: int| 0 <= i < all.len() implies (#[trigger] all[i]).1 == all[i].0 + name.len()
        && text::occurs_at(low, needle, all[i].0) by {
        let s = all[i].0;
        let e = all[i].1;
        assert(redactor::name_at(hay, needle, s, e));
        let stretch = hay.subrange(s, e);
        assert(text::ascii(stretch));
        assert(low.subrange(s, e) =~= text::ascii_lowercase(stretch));
    }
}

/// A character whose small form is that of a name's character stands in no token
/// but as a letter.
proof fn lemma_lower_of_name_char(c: char, d: char)
    requires
        text::ascii_lower(c) == text::ascii_lower(d),
        name_char(d),
    ensures
        name_char(c),
{
}

/// An ordinary name matches no part of a token.
#[verifier::rlimit(40)]
#[verifier::spinoff_prover]
proof fn lemma_name_clear(m: Marked, a: Seq<Piece>, input: Seq<char>, name: Seq<char>)
    requires
        made_of(m, a, input),
        text::ascii(input),
        none_of(m.state.entries, EntityClass::Email),
        none_of(m.state.entries, EntityClass::Phone),
        ordinary_name(name),
    ensures
        spans_clear(redactor::name_spans(m.state.text, name), m.marks),
{
    let hay = m.state.text;
    let entries = m.state.entries;
    lemma_shown_ascii(a, entries);
    lemma_bracketed(entries);
    lemma_marks_len(a, entries);
    let low = text::ascii_lowercase(hay);
    let needle = text::ascii_lowercase(name);
    lemma_ascii_spans(hay, name);
    let spans = redactor::name_spans(hay, name);
    assert forall|i: int| 0 <= i < spans.len() implies (#[trigger] spans[i]).0 < spans[i].1
        && forall|p: int| spans[i].0 <= p < spans[i].1 ==> !#[trigger] m.marks[p] by {
        let s = spans[i].0;
        let e = spans[i].1;
        assert(text::occurs_at(low, needle, s));
        assert forall|x: int| s <= x < e implies text::ascii_lower(#[trigger] hay[x])
            == text::ascii_lower(name[x - s]) && name_char(hay[x]) by {
            assert(low.subrange(s, e)[x - s] == needle[x - s]);
            lemma_lower_of_name_char(hay[x], name[x - s]);
        }
        assert forall|p: int| s <= p < e implies !#[trigger] m.marks[p] by {
            if m.marks[p] {
                let (y, q) = lemma_in_token(a, entries, s, e, p);
                let n = redactor::class_count(entries.take(y), EntityClass::Person) + 1;
                let t = redactor::token_text(EntityClass::Person, n);
                assert(entries[y].class == EntityClass::Person);
                assert(entries[y].token == t);
                lemma_token_parts(EntityClass::Person, n);
                reveal_strlit("PERSON");
                reveal_strlit("person");
                let w = redactor::class_word(EntityClass::Person);
                assert forall|x: int| q <= x < q + (e - s) implies #[trigger] t[x] == hay[s + x
                    - q] by {
                    assert(t.subrange(q, q + (e - s))[x - q] == hay.subrange(s, e)[x - q]);
                }
                assert(q + (e - s) <= w.len() + 1) by {
                    let x = q + (e - s) - 1;
                    assert(t[x] == hay[s + x - q]);
                    assert(name_char(hay[s + x - q]));
                }
                assert("person"@.subrange(q - 1, q - 1 + needle.len()) =~= needle) by {
                    assert forall|k: int| 0 <= k < needle.len() implies "person"@[q - 1 + k]
                        == needle[k] by {
                        assert(t[q + k] == w[q + k - 1]);
                        assert(t[q + k] == hay[s + k]);
                        assert(text::ascii_lower(w[q + k - 1]) == "person"@[q - 1 + k]);
                        assert(text::ascii_lower(hay[s + k]) == text::ascii_lower(name[k]));
                    }
                }
                assert(text::occurs_at("person"@, needle, q - 1));
            }
        }
    }
}

/// Ordinary names match no part of a token.
proof fn lemma_names_clear(names: Seq<Seq<char>>, m: Marked, a: Seq<Piece>, input: Seq<char>)
    requires
        made_of(m, a, input),
        names.len() > 0 ==> text::ascii(input),
        none_of(m.state.entries, EntityClass::Email),
        none_of(m.state.entries, EntityClass::Phone),
        forall|i: int| 0 <= i < names.len() ==> ordinary_name(#[trigger] names[i]),
    ensures
        names_clear(names, m),
        none_of(names_marked(names, m).state.entries, EntityClass::Phone),
    decreases names.len(),
{
    if names.len() > 0 {
        let spans = redactor::name_spans(m.state.text, names[0]);
        assert(ordinary_name(names[0]));
        lemma_name_clear(m, a, input, names[0]);
        redactor::lemma_name_spans(m.state.text, names[0]);
        let b = lemma_pass(m, a, input, spans, EntityClass::Person);
        let text = m.state.text;
        let entries = m.state.entries;
        lemma_none_of(text, spans, EntityClass::Person, entries, 0, EntityClass::Email);
        lemma_none_of(text, spans, EntityClass::Person, entries, 0, EntityClass::Phone);
        let rest = names.drop_first();
        assert forall|i: int| 0 <= i < rest.len() implies ordinary_name(#[trigger] rest[i]) by {
            assert(rest[i] == names[i + 1]);
        }
        lemma_names_clear(rest, scrub_marked(m, spans, EntityClass::Person), b, input);
    }
}

/// An email address holds no part of a token.
#[verifier::spinoff_prover]
proof fn lemma_emails_clear(m: Marked, a: Seq<Piece>, input: Seq<char>)
    requires
        made_of(m, a, input),
    ensures
        spans_clear(pattern::pattern_spans(EMAIL_PATTERN@, m.state.text), m.marks),
{
    let t = m.state.text;
    let entries = m.state.entries;
    let spans = pattern::pattern_spans(EMAIL_PATTERN@, t);
    pattern::lemma_pattern_spans(EMAIL_PATTERN@, t);
    lemma_bracketed(entries);
    assert forall|i: int| 0 <= i < spans.len() implies (#[trigger] spans[i]).0 < spans[i].1
        && forall|p: int| spans[i].0 <= p < spans[i].1 ==> !#[trigger] m.marks[p] by {
        let s = spans[i].0;
        let e = spans[i].1;
        let found = t.subrange(s, e);
        assert(pattern::match_shape(EMAIL_PATTERN@, found));
        let at = choose|k: int| 0 <= k < found.len() && found[k] == '@';
        assert(found[at] == '@');
        assert forall|x: int| s <= x < e implies #[trigger] t[x] != '[' && t[x] != ']' by {
            assert(found[x - s] == t[x]);
            assert(found.contains(found[x - s]));
        }
        assert forall|p: int| s <= p < e implies !#[trigger] m.marks[p] by {
            if m.marks[p] {
                let (y, q) = lemma_in_token(a, entries, s, e, p);
                let c = entries[y].class;
                let k = entries[y].token;
                lemma_token_parts(c, redactor::class_count(entries.take(y), c) + 1);
                assert(k.subrange(q, q + (e - s))[at] == k[q + at]);
                assert(k[q + at] == '@');
            }
        }
    }
}

/// The first number of nine digits is a power of ten.
proof fn lemma_nine_digits()
    ensures
        ten_to(8) == nine_digits(),
{
    reveal_with_fuel(ten_to, 9);
}

/// Where a class has few entities, their numbers have less than nine digits.
proof fn lemma_number_short(entries: Seq<Scrubbed>, y: int)
    requires
        0 <= y < entries.len(),
        redactor::class_count(entries, entries[y].class) < nine_digits(),
    ensures
        text::decimal(
            redactor::class_count(entries.take(y), entries[y].class) + 1,
        ).len() <= 8,
{
    let c = entries[y].class;
    redactor::lemma_class_count_monotonic(entries, c, y + 1, entries.len() as int);
    assert(entries.take(y + 1).drop_last() =~= entries.take(y));
    assert(entries.take(y + 1).last() == entries[y]);
    assert(entries.take(entries.len() as int) =~= entries);
    lemma_nine_digits();
    lemma_decimal_short(redactor::class_count(entries.take(y), c) + 1, 8);
}

/// No phone number stands between the brackets of a token whose number has less
/// than nine digits.
#[verifier::spinoff_prover]
proof fn lemma_no_phone_in_token(class: EntityClass, n: nat, q: int, found: Seq<char>)
    requires
        text::decimal(n).len() <= 8,
        1 <= q,
        q + found.len() <= redactor::token_text(class, n).len() - 1,
        pattern::match_shape(PHONE_PATTERN@, found),
    ensures
        found != redactor::token_text(class, n).subrange(q, q + found.len()),
{
    let k = redactor::token_text(class, n);
    let w = redactor::class_word(class).len() as int;
    lemma_token_parts(class, n);
    if found == k.subrange(q, q + found.len()) {
        assert(found.len() >= 9);
        assert(found[0] == k[q]);
        assert(pattern::phone_char(found[0]));
        if 1 <= q <= w {
            assert('A' <= k[q] <= 'Z');
        }
        assert(q >= w + 2);
    }
}

/// A phone number holds no part of a token whose number has less than nine digits.
#[verifier::spinoff_prover]
proof fn lemma_phones_clear(m: Marked, a: Seq<Piece>, input: Seq<char>)
    requires
        made_of(m, a, input),
        forall|y: int|
            0 <= y < m.state.entries.len() ==> redactor::class_count(
                m.state.entries,
                (#[trigger] m.state.entries[y]).class,
            ) < nine_digits(),
    ensures
        spans_clear(pattern::pattern_spans(PHONE_PATTERN@, m.state.text), m.marks),
{
    let t = m.state.text;
    let entries = m.state.entries;
    let spans = pattern::pattern_spans(PHONE_PATTERN@, t);
    pattern::lemma_pattern_spans(PHONE_PATTERN@, t);
    lemma_bracketed(entries);
    assert forall|i: int| 0 <= i < spans.len() implies (#[trigger] spans[i]).0 < spans[i].1
        && forall|p: int| spans[i].0 <= p < spans[i].1 ==> !#[trigger] m.marks[p] by {
        let s = spans[i].0;
        let e = spans[i].1;
        let found = t.subrange(s, e);
        assert(pattern::match_shape(PHONE_PATTERN@, found));
        assert forall|x: int| s <= x < e implies pattern::phone_char(#[trigger] t[x]) by {
            assert(found[x - s] == t[x]);
        }
        assert forall|p: int| s <= p < e implies !#[trigger] m.marks[p] by {
            if m.marks[p] {
                let (y, q) = lemma_in_token(a, entries, s, e, p);
                let c = entries[y].class;
                let n = redactor::class_count(entries.take(y), c) + 1;
                assert(entries[y].token == redactor::token_text(c, n));
                lemma_number_short(entries, y);
                lemma_no_phone_in_token(c, n, q, found);
            }
        }
    }
}

/// No pass over an ordinary text matches inside a token; and there are no more
/// entities than characters.
#[verifier::spinoff_prover]
proof fn lemma_ordinary_passes(names: Seq<Seq<char>>, input: Seq<char>)
    requires
        names.len() > 0 ==> text::ascii(input),
        forall|i: int| 0 <= i < names.len() ==> ordinary_name(#[trigger] names[i]),
        input.len() < nine_digits() || few_tokens(redactor::redaction(names, input).entries),
    ensures
        tokens_stay_whole(names, input),
        redactor::redaction(names, input).entries.len() <= input.len(),
{
    let start = unmarked(input);
    let a0 = plain(input);
    lemma_plain(input, start.state.entries);
    assert(made_of(start, a0, input));
    lemma_names_clear(names, start, a0, input);
    let a1 = lemma_names_pass(names, start, a0, input);
    let named = names_marked(names, start);
    lemma_emails_clear(named, a1, input);
    let emails = pattern::pattern_spans(EMAIL_PATTERN@, named.state.text);
    pattern::lemma_pattern_spans(EMAIL_PATTERN@, named.state.text);
    let a2 = lemma_pass(named, a1, input, emails, EntityClass::Email);
    let mailed = scrub_marked(named, emails, EntityClass::Email);
    lemma_none_of(
        named.state.text,
        emails,
        EntityClass::Email,
        named.state.entries,
        0,
        EntityClass::Phone,
    );
    let phones = pattern::pattern_spans(PHONE_PATTERN@, mailed.state.text);
    pattern::lemma_pattern_spans(PHONE_PATTERN@, mailed.state.text);
    let done = redactor::redaction(names, input);
    let some = mailed.state.entries;
    lemma_substitute_extends(mailed.state.text, phones, EntityClass::Phone, some, 0);
    lemma_tokens_fit(a2, some);
    assert(few_tokens(some)) by {
        let all = done.entries;
        assert(some.is_prefix_of(all));
        assert(all.take(some.len() as int) =~= some);
        assert(all.take(all.len() as int) =~= all);
        lemma_class_count_fits(some, EntityClass::Person);
        lemma_class_count_fits(some, EntityClass::Email);
        redactor::lemma_class_count_monotonic(
            all,
            EntityClass::Person,
            some.len() as int,
            all.len() as int,
        );
        redactor::lemma_class_count_monotonic(
            all,
            EntityClass::Email,
            some.len() as int,
            all.len() as int,
        );
    }
    assert forall|y: int| 0 <= y < some.len() implies redactor::class_count(
        some,
        (#[trigger] some[y]).class,
    ) < nine_digits() by {
        assert(some[y].class != EntityClass::Phone);
    }
    lemma_phones_clear(mailed, a2, input);
    let a3 = lemma_pass(mailed, a2, input, phones, EntityClass::Phone);
    lemma_tokens_fit(a3, done.entries);
}

/// Names and email addresses are so few that no token's number could pass for a
/// phone number.
pub open spec fn few_tokens(entries: Seq<Scrubbed>) -> bool {
    &&& redactor::class_count(entries, EntityClass::Person) < nine_digits()
    &&& redactor::class_count(entries, EntityClass::Email) < nine_digits()
}

/// No class has more entities than there are.
proof fn lemma_class_count_fits(entries: Seq<Scrubbed>, class: EntityClass)
    ensures
        redactor::class_count(entries, class) <= entries.len(),
    decreases entries.len(),
{
    if entries.len() > 0 {
        lemma_class_count_fits(entries.drop_last(), class);
    }
}

/// Putting the originals back into a scrubbed text gives the text that was
/// scrubbed, letter for letter; provided that no token stood in that text before,
/// that names are ordinary and meet an ASCII text, and that the text is shorter
/// than a hundred million characters, or at least that many names or email
/// addresses do not stand in it.
pub proof fn ordinary_text_is_restored(
    names: Seq<Seq<char>>,
    input: Seq<char>,
    out: Seq<char>,
)
    requires
        holds_no_token(input),
        names.len() > 0 ==> text::ascii(input),
        forall|i: int| 0 <= i < names.len() ==> ordinary_name(#[trigger] names[i]),
        input.len() < nine_digits() || few_tokens(redactor::redaction(names, input).entries),
        input.len() <= usize::MAX,
        redactor::is_restored(
            out,
            redactor::redaction(names, input).text,
            redactor::reverse_pairs(redactor::redaction(names, input).entries),
        ),
    ensures
        out == input,
{
    let done = redactor::redaction(names, input);
    lemma_ordinary_passes(names, input);
    redactor::redaction_numbers_entities(names, input);
    assert(tokens_are_fresh(names, input)) by {
        assert forall|i: int, p: int| 0 <= i < done.entries.len() implies !#[trigger] text::occurs_at(
            input,
            done.entries[i].token,
            p,
        ) by {
            let c = done.entries[i].class;
            let n = redactor::class_count(done.entries.take(i), c) + 1;
            assert(!text::occurs_at(input, redactor::token_text(c, n), p));
        }
    }
    let pairs = redactor::reverse_pairs(done.entries);
    let order = choose|order: Seq<usize>|
        #[trigger] text::heaviest_first(order, redactor::key_weights(pairs)) && out
            == redactor::restore(done.text, pairs, order);
    un_redact_restores_input(names, input, order);
}

// ---------------------------------------------------------------------------
// Nothing is passed over
// ---------------------------------------------------------------------------

/// `i` lies in one of the spans.
pub open spec fn covered(spans: Seq<(int, int)>, i: int) -> bool {
    exists|x: int| 0 <= x < spans.len() && (#[trigger] spans[x]).0 <= i < spans[x].1
}

/// A match from `from` on is covered at its start.
proof fn lemma_match_covered(hay: Seq<char>, low: Seq<char>, from: int, i: int, k: int)
    requires
        0 <= from <= i,
        redactor::name_at(hay, low, i, k),
        k - i <= low.len(),
    ensures
        covered(redactor::name_spans_from(hay, low, from), i),
    decreases i - from,
{
    let all = redactor::name_spans_from(hay, low, from);
    let e = redactor::name_end(hay, low, from, from + 1);
    redactor::lemma_name_end(hay, low, from, from + 1);
    if from < e <= hay.len() {
        let rest = redactor::name_spans_from(hay, low, e);
        if i < e {
            assert(all[0] == (from, e));
        } else {
            lemma_match_covered(hay, low, e, i, k);
            let x = choose|x: int|
                0 <= x < rest.len() && (#[trigger] rest[x]).0 <= i < rest[x].1;
            assert(all[x + 1] == rest[x]);
        }
    } else {
        lemma_match_covered(hay, low, from + 1, i, k);
    }
}

/// Wherever a name stands in a text, whatever its case, one of the spans that
/// are scrubbed for it covers the start of that place.
pub proof fn every_name_match_is_scrubbed(hay: Seq<char>, name: Seq<char>, i: int, k: int)
    requires
        redactor::name_at(hay, text::lower_case(name), i, k),
        k - i <= text::lower_case(name).len(),
    ensures
        covered(redactor::name_spans(hay, name), i),
{
    lemma_match_covered(hay, text::lower_case(name), 0, i, k);
}

// ---------------------------------------------------------------------------
// No name is left
// ---------------------------------------------------------------------------

/// The name is an ordinary one, and no piece of the words of the other tokens
/// either.
pub open spec fn apart_from_tokens(name: Seq<char>) -> bool {
    &&& ordinary_name(name)
    &&& forall|p: int| !#[trigger] text::occurs_at("email"@, text::ascii_lowercase(name), p)
    &&& forall|p: int| !#[trigger] text::occurs_at("phone"@, text::ascii_lowercase(name), p)
}

/// The word, in small letters, stands nowhere in the text, whatever its case.
pub open spec fn absent(t: Seq<char>, word: Seq<char>) -> bool {
    forall|p: int| !#[trigger] text::occurs_at(text::ascii_lowercase(t), word, p)
}

/// No token holds a name that is apart from tokens.
#[verifier::spinoff_prover]
proof fn lemma_absent_from_token(class: EntityClass, n: nat, name: Seq<char>)
    requires
        apart_from_tokens(name),
    ensures
        absent(redactor::token_text(class, n), text::ascii_lowercase(name)),
{
    let t = redactor::token_text(class, n);
    let low = text::ascii_lowercase(t);
    let w = text::ascii_lowercase(name);
    let word = redactor::class_word(class);
    lemma_token_parts(class, n);
    reveal_strlit("PERSON");
    reveal_strlit("EMAIL");
    reveal_strlit("PHONE");
    reveal_strlit("person");
    reveal_strlit("email");
    reveal_strlit("phone");
    let small = match class {
        EntityClass::Person => "person"@,
        EntityClass::Email => "email"@,
        EntityClass::Phone => "phone"@,
    };
    assert(small.len() == word.len());
    assert forall|p: int| !#[trigger] text::occurs_at(low, w, p) by {
        if text::occurs_at(low, w, p) {
            assert forall|x: int| p <= x < p + w.len() implies name_char(#[trigger] t[x]) by {
                assert(low.subrange(p, p + w.len())[x - p] == w[x - p]);
                assert(name_char(name[x - p]));
                lemma_lower_of_name_char(t[x], name[x - p]);
            }
            assert(p >= 1) by {
                if p < 1 {
                    assert(!name_char(t[0]));
                }
            }
            assert(p + w.len() <= word.len() + 1) by {
                if p + w.len() > word.len() + 1 {
                    assert(!name_char(t[word.len() as int + 1]));
                    let x = p + w.len() - 1;
                    assert(name_char(t[x]));
                    assert(x != t.len() - 1);
                }
            }
            assert(small.subrange(p - 1, p - 1 + w.len()) =~= w) by {
                assert forall|k: int| 0 <= k < w.len() implies small[p - 1 + k] == w[k] by {
                    assert(low.subrange(p, p + w.len())[k] == w[k]);
                    assert(t[p + k] == word[p + k - 1]);
                    assert(text::ascii_lower(word[p + k - 1]) == small[p + k - 1]);
                }
            }
            assert(text::occurs_at(small, w, p - 1));
        }
    }
}

/// The token for an original is one of its class.
proof fn lemma_token_for(entries: Seq<Scrubbed>, class: EntityClass, original: Seq<char>) -> (n: nat)
    requires
        redactor::numbered(entries),
    ensures
        redactor::token_for(entries, class, original) == redactor::token_text(class, n),
{
    let after = redactor::entries_with(entries, class, original);
    redactor::lemma_entries_with_numbered(entries, class, original);
    redactor::lemma_entry_index_props(entries, class, original, 0);
    redactor::lemma_entry_index_props(after, class, original, 0);
    let i = redactor::entry_index(after, class, original, 0);
    if redactor::entry_index(entries, class, original, 0) >= entries.len() {
        let last = after[after.len() - 1];
        assert(last.class == class && last.original == original);
    }
    assert(i < after.len());
    redactor::class_count(after.take(i), class) + 1
}

/// What stands in a text whose spans were replaced by tokens, and is in no
/// token, stood in the text before, clear of the spans.
#[verifier::spinoff_prover]
proof fn lemma_stood_before(
    t: Seq<char>,
    spans: Seq<(int, int)>,
    class: EntityClass,
    entries: Seq<Scrubbed>,
    from: int,
    name: Seq<char>,
    p: int,
) -> (q: int)
    requires
        0 <= from <= t.len(),
        pattern::spans_in(spans, from, t.len() as int),
        redactor::numbered(entries),
        apart_from_tokens(name),
        text::occurs_at(
            text::ascii_lowercase(redactor::substitute(t, spans, class, entries, from).text),
            text::ascii_lowercase(name),
            p,
        ),
    ensures
        from <= q,
        text::occurs_at(text::ascii_lowercase(t), text::ascii_lowercase(name), q),
        forall|x: int|
            0 <= x < spans.len() ==> q + name.len() <= (#[trigger] spans[x]).0 || spans[x].1 <= q,
    decreases spans.len(),
{
    let w = text::ascii_lowercase(name);
    let m = w.len() as int;
    let all = redactor::substitute(t, spans, class, entries, from).text;
    let low = text::ascii_lowercase(all);
    assert forall|k: int| 0 <= k < m implies text::ascii_lower(#[trigger] all[p + k]) == w[k]
        && name_char(all[p + k]) by {
        assert(low.subrange(p, p + m)[k] == w[k]);
        assert(name_char(name[k]));
        lemma_lower_of_name_char(all[p + k], name[k]);
    }
    if spans.len() == 0 {
        let q = from + p;
        assert(text::ascii_lowercase(t).subrange(q, q + m) =~= w) by {
            assert forall|k: int| 0 <= k < m implies text::ascii_lowercase(t)[q + k] == w[k] by {
                assert(all[p + k] == t[q + k]);
            }
        }
        q
    } else {
        let a = spans[0].0;
        let b = spans[0].1;
        let original = t.subrange(a, b);
        let token = redactor::token_for(entries, class, original);
        let n = lemma_token_for(entries, class, original);
        lemma_token_parts(class, n);
        lemma_absent_from_token(class, n, name);
        redactor::lemma_entries_with_numbered(entries, class, original);
        let more = redactor::entries_with(entries, class, original);
        let rest_spans = spans.drop_first();
        let rest = redactor::substitute(t, rest_spans, class, more, b).text;
        let f = a - from;
        let g = f + token.len();
        assert(all == t.subrange(from, a) + token + rest);
        if p + m <= f {
            let q = from + p;
            assert(text::ascii_lowercase(t).subrange(q, q + m) =~= w) by {
                assert forall|k: int| 0 <= k < m implies text::ascii_lowercase(t)[q + k] == w[k] by {
                    assert(all[p + k] == t[q + k]);
                }
            }
            assert forall|x: int| 0 <= x < spans.len() implies q + name.len() <= (
            #[trigger] spans[x]).0 || spans[x].1 <= q by {
                if x > 0 {
                    assert(spans[0].1 <= spans[x].0);
                }
            }
            q
        } else if p >= g {
            assert forall|x: int| 0 <= x < rest_spans.len() implies b <= (
            #[trigger] rest_spans[x]).0 <= rest_spans[x].1 <= t.len() by {
                assert(rest_spans[x] == spans[x + 1]);
                assert(spans[0].1 <= spans[x + 1].0);
            }
            assert forall|x: int, y: int| 0 <= x < y < rest_spans.len() implies (
            #[trigger] rest_spans[x]).1 <= (#[trigger] rest_spans[y]).0 by {
                assert(rest_spans[x] == spans[x + 1]);
                assert(rest_spans[y] == spans[y + 1]);
            }
            let low_rest = text::ascii_lowercase(rest);
            assert(low_rest.subrange(p - g, p - g + m) =~= w) by {
                assert forall|k: int| 0 <= k < m implies low_rest[p - g + k] == w[k] by {
                    assert(all[p + k] == rest[p - g + k]);
                }
            }
            let q = lemma_stood_before(t, rest_spans, class, more, b, name, p - g);
            assert forall|x: int| 0 <= x < spans.len() implies q + name.len() <= (
            #[trigger] spans[x]).0 || spans[x].1 <= q by {
                if x > 0 {
                    assert(rest_spans[x - 1] == spans[x]);
                }
            }
            q
        } else {
            assert(token == redactor::token_text(class, n));
            if p < f {
                assert(all[p + (f - p)] == token[0]);
                assert(name_char(all[p + (f - p)]));
            } else if p + m > g {
                assert(all[p + (g - 1 - p)] == token[token.len() - 1]);
                assert(name_char(all[p + (g - 1 - p)]));
            } else {
                let low_token = text::ascii_lowercase(token);
                assert(low_token.subrange(p - f, p - f + m) =~= w) by {
                    assert forall|k: int| 0 <= k < m implies low_token[p - f + k] == w[k] by {
                        assert(all[p + k] == token[p - f + k]);
                    }
                }
                assert(text::occurs_at(low_token, w, p - f));
            }
            assert(false);
            p
        }
    }
}

/// A name that a text does not hold is not there after spans were replaced.
proof fn lemma_stays_absent(
    t: Seq<char>,
    spans: Seq<(int, int)>,
    class: EntityClass,
    entries: Seq<Scrubbed>,
    name: Seq<char>,
)
    requires
        pattern::spans_in(spans, 0, t.len() as int),
        redactor::numbered(entries),
        apart_from_tokens(name),
        absent(t, text::ascii_lowercase(name)),
    ensures
        absent(
            redactor::substitute(t, spans, class, entries, 0).text,
            text::ascii_lowercase(name),
        ),
{
    let all = redactor::substitute(t, spans, class, entries, 0).text;
    let w = text::ascii_lowercase(name);
    assert forall|p: int| !#[trigger] text::occurs_at(text::ascii_lowercase(all), w, p) by {
        if text::occurs_at(text::ascii_lowercase(all), w, p) {
            let q = lemma_stood_before(t, spans, class, entries, 0, name, p);
            assert(text::occurs_at(text::ascii_lowercase(t), w, q));
        }
    }
}

/// A name is not there once it was scrubbed.
proof fn lemma_name_absent(t: Seq<char>, entries: Seq<Scrubbed>, name: Seq<char>)
    requires
        redactor::numbered(entries),
        apart_from_tokens(name),
    ensures
        absent(
            redactor::substitute(
                t,
                redactor::name_spans(t, name),
                EntityClass::Person,
                entries,
                0,
            ).text,
            text::ascii_lowercase(name),
        ),
{
    let spans = redactor::name_spans(t, name);
    let all = redactor::substitute(t, spans, EntityClass::Person, entries, 0).text;
    let w = text::ascii_lowercase(name);
    redactor::lemma_name_spans(t, name);
    assert forall|p: int| !#[trigger] text::occurs_at(text::ascii_lowercase(all), w, p) by {
        if text::occurs_at(text::ascii_lowercase(all), w, p) {
            let q = lemma_stood_before(t, spans, EntityClass::Person, entries, 0, name, p);
            let m = name.len() as int;
            let stretch = t.subrange(q, q + m);
            assert forall|k: int| 0 <= k < m implies (#[trigger] stretch[k] as u32) < 0x80
                && text::ascii_lower(stretch[k]) == w[k] by {
                assert(text::ascii_lowercase(t).subrange(q, q + m)[k] == w[k]);
                assert((name[k] as u32) < 0x80);
            }
            assert(text::ascii_lowercase(stretch) =~= w);
            every_name_match_is_scrubbed(t, name, q, q + m);
            let x = choose|x: int|
                0 <= x < spans.len() && (#[trigger] spans[x]).0 <= q < spans[x].1;
            assert(q + name.len() <= spans[x].0 || spans[x].1 <= q);
        }
    }
}

/// Scrubbing names brings no other name back.
proof fn lemma_names_stay_absent(names: Seq<Seq<char>>, state: Redaction, name: Seq<char>)
    requires
        redactor::numbered(state.entries),
        apart_from_tokens(name),
        absent(state.text, text::ascii_lowercase(name)),
    ensures
        absent(redactor::scrub_names(names, state).text, text::ascii_lowercase(name)),
    decreases names.len(),
{
    if names.len() > 0 {
        let spans = redactor::name_spans(state.text, names[0]);
        let person = EntityClass::Person;
        redactor::lemma_name_spans(state.text, names[0]);
        lemma_stays_absent(state.text, spans, person, state.entries, name);
        redactor::lemma_substitute_numbered(state.text, spans, person, state.entries, 0);
        lemma_names_stay_absent(
            names.drop_first(),
            redactor::substitute(state.text, spans, person, state.entries, 0),
            name,
        );
    }
}

/// Once all names were scrubbed, none is there.
proof fn lemma_names_absent(names: Seq<Seq<char>>, state: Redaction, i: int)
    requires
        0 <= i < names.len(),
        redactor::numbered(state.entries),
        apart_from_tokens(names[i]),
    ensures
        absent(redactor::scrub_names(names, state).text, text::ascii_lowercase(names[i])),
    decreases names.len(),
{
    let spans = redactor::name_spans(state.text, names[0]);
    let person = EntityClass::Person;
    let next = redactor::substitute(state.text, spans, person, state.entries, 0);
    redactor::lemma_substitute_numbered(state.text, spans, person, state.entries, 0);
    let rest = names.drop_first();
    if i == 0 {
        lemma_name_absent(state.text, state.entries, names[0]);
        lemma_names_stay_absent(rest, next, names[0]);
    } else {
        assert(rest[i - 1] == names[i]);
        lemma_names_absent(rest, next, i - 1);
    }
}

/// What leaves the machine holds none of the names, whatever their case: each
/// that is an ASCII text without brackets, underscores and digits, and no piece
/// of a word that tokens carry.
pub proof fn no_name_is_left(names: Seq<Seq<char>>, input: Seq<char>, i: int)
    requires
        0 <= i < names.len(),
        apart_from_tokens(names[i]),
    ensures
        forall|p: int|
            !#[trigger] text::occurs_at(
                text::ascii_lowercase(redactor::redaction(names, input).text),
                text::ascii_lowercase(names[i]),
                p,
            ),
{
    let start = Redaction { text: input, entries: Seq::empty() };
    let named = redactor::scrub_names(names, start);
    redactor::lemma_scrub_names_numbered(names, start);
    lemma_names_absent(names, start, i);
    let emails = pattern::pattern_spans(EMAIL_PATTERN@, named.text);
    pattern::lemma_pattern_spans(EMAIL_PATTERN@, named.text);
    lemma_stays_absent(named.text, emails, EntityClass::Email, named.entries, names[i]);
    redactor::lemma_substitute_numbered(named.text, emails, EntityClass::Email, named.entries, 0);
    let mailed = redactor::scrub_pattern(EMAIL_PATTERN@, EntityClass::Email, named);
    let phones = pattern::pattern_spans(PHONE_PATTERN@, mailed.text);
    pattern::lemma_pattern_spans(PHONE_PATTERN@, mailed.text);
    lemma_stays_absent(mailed.text, phones, EntityClass::Phone, mailed.entries, names[i]);
}

/// Within one redaction the same original of a class has one token, and a
/// token stands for one original of one class.
pub proof fn tokens_and_originals_correspond(
    names: Seq<Seq<char>>,
    input: Seq<char>,
    i: int,
    j: int,
)
    requires
        0 <= i < redactor::redaction(names, input).entries.len(),
        0 <= j < redactor::redaction(names, input).entries.len(),
    ensures
        ({
            let a = redactor::redaction(names, input).entries[i];
            let b = redactor::redaction(names, input).entries[j];
            a.token == b.token <==> (a.class == b.class && a.original == b.original)
        }),
{
    redactor::redaction_numbers_entities(names, input);
    redactor::lemma_tokens_distinct(redactor::redaction(names, input).entries);
}

/// With an empty map nothing is put back.
pub proof fn empty_map_restores_nothing(
    text: Seq<char>,
    pairs: Seq<(Seq<char>, Seq<char>)>,
    order: Seq<usize>,
)
    requires
        pairs.len() == 0,
        text::heaviest_first(order, redactor::key_weights(pairs)),
    ensures
        redactor::restore(text, pairs, order) == text,
{
}

} // verus!
