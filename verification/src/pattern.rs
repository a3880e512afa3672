//! Patterns, and where they match.
use vstd::prelude::*;

use crate::text;
use crate::text::{append_chars, byte_offsets, find_offset, from_chars};
use vstd::slice::slice_subrange;

verus! {

/// The spans are ordered, do not overlap, and lie in `from..=end`.
pub open spec fn spans_in(spans: Seq<(int, int)>, from: int, end: int) -> bool {
    &&& forall|i: int|
        0 <= i < spans.len() ==> from <= (#[trigger] spans[i]).0 <= spans[i].1 <= end
    &&& forall|i: int, j: int|
        0 <= i < j < spans.len() ==> (#[trigger] spans[i]).1 <= (#[trigger] spans[j]).0
}

/// Spans as pairs of mathematical integers.
pub open spec fn int_spans(v: Seq<(usize, usize)>) -> Seq<(int, int)> {
    v.map_values(|s: (usize, usize)| (s.0 as int, s.1 as int))
}

/// Offsets order as indices do.
pub proof fn lemma_offset_order(s: Seq<char>, i: int, j: int)
    requires
        0 <= i <= s.len(),
        0 <= j <= s.len(),
        text::byte_offset(s, i) <= text::byte_offset(s, j),
    ensures
        i <= j,
{
    if j < i {
        text::lemma_byte_offset_monotonic(s, j, i);
    }
}

/// The pattern of email addresses.
pub const EMAIL_PATTERN: &'static str = "[\\w.+-]+@[\\w-]+\\.[\\w.-]+";

/// The pattern of phone numbers: at least nine characters, a digit at each end.
pub const PHONE_PATTERN: &'static str = "\\+?\\d[\\d\\s\\-().]{7,}\\d";

/// The pattern of tokens that stand for scrubbed texts.
pub const TOKEN_PATTERN: &'static str = "\\[(PERSON|EMAIL|PHONE)_\\d+\\]";

/// The byte spans that `regex::Regex::find_iter` yields for a pattern and a
/// text; `None` where `regex::Regex::new` refuses the pattern.
pub uninterp spec fn regex_spans(pattern: Seq<char>, text: Seq<char>) -> Option<
    Seq<(usize, usize)>,
>;

/// Byte spans that are ordered, do not overlap and hold whole characters of
/// `text`.
pub open spec fn byte_spans_of(text: Seq<char>, spans: Seq<(usize, usize)>) -> bool {
    &&& forall|i: int|
        0 <= i < spans.len() ==> (#[trigger] spans[i]).0 <= spans[i].1
            && text::char_boundary(text, spans[i].0 as int)
            && text::char_boundary(text, spans[i].1 as int)
    &&& forall|i: int, j: int|
        0 <= i < j < spans.len() ==> (#[trigger] spans[i]).1 <= (#[trigger] spans[j]).0
}

/// The spans of characters that byte spans cover.
pub open spec fn char_spans(text: Seq<char>, spans: Seq<(usize, usize)>) -> Seq<(int, int)> {
    spans.map_values(
        |s: (usize, usize)|
            (
                text::char_index(text, s.0 as int),
                text::char_index(text, s.1 as int),
            ),
    )
}

/// The character can stand in a match of the phone pattern: it is no bracket,
/// underscore or ASCII letter.
pub open spec fn phone_char(c: char) -> bool {
    &&& c != '['
    &&& c != ']'
    &&& c != '_'
    &&& !('A' <= c <= 'Z')
    &&& !('a' <= c <= 'z')
}

/// What every match of a pattern looks like: one of the email pattern has an at
/// sign and no brackets; one of the phone pattern has nine characters at least,
/// and only such as can stand in it.
pub open spec fn match_shape(pattern: Seq<char>, m: Seq<char>) -> bool {
    &&& pattern == EMAIL_PATTERN@ ==> m.contains('@') && !m.contains('[') && !m.contains(']')
    &&& pattern == PHONE_PATTERN@ ==> m.len() >= 9 && forall|i: int|
        0 <= i < m.len() ==> phone_char(#[trigger] m[i])
}

/// What stands in the byte spans looks as matches of the pattern do.
pub open spec fn matches_shaped(
    pattern: Seq<char>,
    text: Seq<char>,
    spans: Seq<(usize, usize)>,
) -> bool {
    forall|i: int|
        0 <= i < spans.len() ==> match_shape(
            pattern,
            text.subrange(
                text::char_index(text, (#[trigger] spans[i]).0 as int),
                text::char_index(text, spans[i].1 as int),
            ),
        )
}

/// The spans of `text` that a pattern matches: those of whole characters that
/// look as its matches do, which all of them are; none for a pattern that does not
/// compile.
pub open spec fn pattern_spans(pattern: Seq<char>, text: Seq<char>) -> Seq<(int, int)> {
    match regex_spans(pattern, text) {
        Some(spans) => if byte_spans_of(text, spans) && matches_shaped(pattern, text, spans) {
            char_spans(text, spans)
        } else {
            Seq::empty()
        },
        None => Seq::empty(),
    }
}

/// One of the patterns of this module.
pub open spec fn known_pattern(pattern: Seq<char>) -> bool {
    pattern == EMAIL_PATTERN@ || pattern == PHONE_PATTERN@ || pattern == TOKEN_PATTERN@
}

/// `regex::Regex::new` and `regex::Regex::find_iter`: the start and end byte
/// offsets of the successive non-overlapping matches of the pattern in the
/// text, which depend on the two alone. They come from left to right and fall
/// on character boundaries. `None` where the pattern is refused; the three
/// patterns of this module are accepted. A match of the email pattern holds the at
/// sign that the pattern asks for, and no bracket, since none of its classes has
/// one. A match of the phone pattern is a digit, seven characters or more of its
/// class and a digit; neither digits nor white space nor the signs of that class
/// are brackets, underscores or ASCII letters.
#[verifier::external_body]
fn find_matches(pattern: &str, text: &str) -> (r: Option<Vec<(usize, usize)>>)
    ensures
        r is Some <==> regex_spans(pattern@, text@) is Some,
        r is Some ==> r->0@ == regex_spans(pattern@, text@)->0,
        r is Some ==> byte_spans_of(text@, r->0@),
        r is Some ==> matches_shaped(pattern@, text@, r->0@),
        known_pattern(pattern@) ==> r is Some,
{
    match regex::Regex::new(pattern) {
        Ok(re) => Some(re.find_iter(text).map(|m| (m.start(), m.end())).collect()),
        Err(_) => None,
    }
}

/// The spans of `text` that a pattern matches.
pub fn find_pattern(text: &[char], pattern: &str) -> (spans: Vec<(usize, usize)>)
    ensures
        int_spans(spans@) == pattern_spans(pattern@, text@),
        spans_in(int_spans(spans@), 0, text@.len() as int),
{
    let whole = from_chars(text);
    let found = match find_matches(pattern, whole.as_str()) {
        Some(found) => found,
        None => Vec::new(),
    };
    let offsets = byte_offsets(text);
    let mut spans: Vec<(usize, usize)> = Vec::new();
    for i in 0..found.len()
        invariant
            byte_spans_of(text@, found@),
            offsets@.len() == text@.len() + 1,
            forall|k: int|
                0 <= k <= text@.len() ==> #[trigger] offsets@[k] == text::byte_offset(
                    text@,
                    k,
                ),
            int_spans(spans@) == char_spans(text@, found@.take(i as int)),
    {
        let (a, b) = found[i];
        proof {
            assert(found@[i as int] == (a, b));
        }
        let first = find_offset(Ghost(text@), &offsets, a as u128);
        let last = find_offset(Ghost(text@), &offsets, b as u128);
        let ghost before = int_spans(spans@);
        if let (Some(x), Some(y)) = (first, last) {
            spans.push((x, y));
            proof {
                assert(int_spans(spans@) =~= before.push((x as int, y as int)));
            }
        }
        proof {
            assert(found@.take(i + 1) =~= found@.take(i as int).push(found@[i as int]));
            assert(int_spans(spans@) =~= char_spans(text@, found@.take(i + 1)));
        }
    }
    proof {
        assert(found@.take(found@.len() as int) =~= found@);
        lemma_char_spans_in(text@, found@);
        assert(int_spans(spans@) =~= pattern_spans(pattern@, text@));
    }
    spans
}

/// Byte spans of a text cover ordered spans of its characters.
proof fn lemma_char_spans_in(text: Seq<char>, spans: Seq<(usize, usize)>)
    requires
        byte_spans_of(text, spans),
    ensures
        spans_in(char_spans(text, spans), 0, text.len() as int),
{
    let all = char_spans(text, spans);
    assert forall|i: int| 0 <= i < all.len() implies 0 <= (#[trigger] all[i]).0 <= all[i].1
        <= text.len() by {
        let s = spans[i];
        lemma_offset_order(
            text,
            text::char_index(text, s.0 as int),
            text::char_index(text, s.1 as int),
        );
    }
    assert forall|i: int, j: int| 0 <= i < j < all.len() implies (#[trigger] all[i]).1 <= (
    #[trigger] all[j]).0 by {
        let s = spans[i];
        let t = spans[j];
        lemma_offset_order(
            text,
            text::char_index(text, s.1 as int),
            text::char_index(text, t.0 as int),
        );
    }
}

/// The spans of a pattern are ordered, do not overlap and lie in the text, and
/// what stands in them looks as its matches do.
pub proof fn lemma_pattern_spans(pattern: Seq<char>, text: Seq<char>)
    ensures
        spans_in(pattern_spans(pattern, text), 0, text.len() as int),
        forall|i: int|
            0 <= i < pattern_spans(pattern, text).len() ==> match_shape(
                pattern,
                text.subrange(
                    (#[trigger] pattern_spans(pattern, text)[i]).0,
                    pattern_spans(pattern, text)[i].1,
                ),
            ),
{
    if let Some(spans) = regex_spans(pattern, text) {
        if byte_spans_of(text, spans) && matches_shaped(pattern, text, spans) {
            lemma_char_spans_in(text, spans);
            let all = pattern_spans(pattern, text);
            assert forall|i: int| 0 <= i < all.len() implies match_shape(
                pattern,
                text.subrange((#[trigger] all[i]).0, all[i].1),
            ) by {
                let s = spans[i];
                assert(all[i] == (
                    text::char_index(text, s.0 as int),
                    text::char_index(text, s.1 as int),
                ));
            }
        }
    }
}

/// `text` from `from` on, without what stands in the spans.
pub open spec fn without_spans(text: Seq<char>, spans: Seq<(int, int)>, from: int) -> Seq<char>
    decreases spans.len(),
{
    if spans.len() == 0 {
        text.skip(from)
    } else {
        text.subrange(from, spans[0].0) + without_spans(text, spans.drop_first(), spans[0].1)
    }
}

/// `text` without what the pattern matches.
pub open spec fn without_matches(pattern: Seq<char>, text: Seq<char>) -> Seq<char> {
    without_spans(text, pattern_spans(pattern, text), 0)
}

/// The text without what the pattern matches.
pub fn remove_matches(text: &[char], pattern: &str) -> (r: Vec<char>)
    ensures
        r@ == without_matches(pattern@, text@),
{
    let spans = find_pattern(text, pattern);
    let ghost all = int_spans(spans@);
    let ghost done = without_spans(text@, all, 0);
    let mut out: Vec<char> = Vec::new();
    let mut from: usize = 0;
    proof {
        assert(all.skip(0) =~= all);
        assert(out@ + done =~= done);
    }
    for k in 0..spans.len()
        invariant
            all == int_spans(spans@),
            spans_in(all, 0, text@.len() as int),
            from <= text@.len(),
            k > 0 ==> from == all[k - 1].1,
            k == 0 ==> from == 0,
            out@ + without_spans(text@, all.skip(k as int), from as int) == done,
    {
        let ghost before = out@;
        let ghost rest = all.skip(k as int);
        let (a, b) = spans[k];
        proof {
            assert(rest[0] == all[k as int]);
            assert(all[k as int] == (a as int, b as int));
            assert(rest.drop_first() =~= all.skip(k + 1));
            if k > 0 {
                assert(all[k - 1].1 <= all[k as int].0);
            }
        }
        append_chars(&mut out, slice_subrange(text, from, a));
        from = b;
        proof {
            assert(out@ + without_spans(text@, all.skip(k + 1), from as int) =~= done);
        }
    }
    append_chars(&mut out, slice_subrange(text, from, text.len()));
    proof {
        assert(all.skip(spans@.len() as int).len() == 0);
        assert(text@.subrange(from as int, text@.len() as int) =~= text@.skip(from as int));
    }
    out
}

} // verus!
