//! The JSON object in what a model answered.
use vstd::prelude::*;

use crate::text;
use crate::text::{
    find_char, from_chars, starts_with_chars, strip_prefix_chars, strip_suffix_chars, to_chars,
    trim_chars,
};
use vstd::slice::slice_subrange;

verus! {

/// A text without the white space at its ends and without the code fence round
/// it, with or without the label `json`.
pub open spec fn unfenced(raw: Seq<char>) -> Seq<char> {
    let t = text::trim(raw);
    if text::starts_with(t, "```"@) {
        text::trim(
            text::without_suffix(
                text::without_prefix(text::without_prefix(t, "```"@), "json"@),
                "```"@,
            ),
        )
    } else {
        t
    }
}

/// The text without the code fence round it.
pub fn strip_fences(raw: &str) -> (r: String)
    ensures
        r@ == unfenced(raw@),
{
    let v = to_chars(raw);
    let t = trim_chars(v.as_slice());
    if starts_with_chars(t, "```") {
        let rest = strip_prefix_chars(t, "```");
        let rest = strip_prefix_chars(rest, "json");
        let rest = strip_suffix_chars(rest, "```");
        from_chars(trim_chars(rest))
    } else {
        from_chars(t)
    }
}

/// The opening braces of `s` less its closing ones.
pub open spec fn brace_balance(s: Seq<char>) -> int
    decreases s.len(),
{
    if s.len() == 0 {
        0
    } else {
        brace_balance(s.drop_last()) + if s.last() == '{' {
            1int
        } else if s.last() == '}' {
            -1
        } else {
            0
        }
    }
}

/// The least length from `e` on at which a prefix of `t` closes all the braces
/// that it opens.
pub open spec fn balanced_end(t: Seq<char>, e: int) -> Option<int>
    decreases t.len() + 1 - e,
{
    if e > t.len() {
        None
    } else if brace_balance(t.take(e)) == 0 {
        Some(e)
    } else {
        balanced_end(t, e + 1)
    }
}

/// The text from the first opening brace to the brace that closes it.
pub open spec fn first_object(s: Seq<char>) -> Option<Seq<char>> {
    let start = text::first_index(s, '{');
    if start < s.len() {
        match balanced_end(s.skip(start), 1) {
            Some(e) => Some(s.skip(start).take(e)),
            None => None,
        }
    } else {
        None
    }
}

/// The first balanced block of braces.
pub fn extract_first_json_object(s: &str) -> (r: Option<String>)
    ensures
        r is Some <==> first_object(s@) is Some,
        r is Some ==> r->0@ == first_object(s@)->0,
{
    let v = to_chars(s);
    let start: usize = find_char(v.as_slice(), '{');
    if start >= v.len() {
        return None;
    }
    let t = slice_subrange(v.as_slice(), start, v.len());
    proof {
        assert(t@ =~= s@.skip(start as int));
        assert(t@.take(0) =~= Seq::empty());
        assert(t@.take(1).drop_last() =~= t@.take(0));
        text::lemma_first_index_props(s@, '{');
        assert(t@.take(1).last() == '{');
        assert(brace_balance(t@.take(0)) == 0);
        assert(brace_balance(t@.take(1)) == 1);
    }
    let mut depth: i128 = 1;
    let mut e: usize = 1;
    while e < t.len()
        invariant
            1 <= e <= t@.len(),
            t@ == s@.skip(start as int),
            start == text::first_index(s@, '{'),
            start < s@.len(),
            depth == brace_balance(t@.take(e as int)),
            depth != 0,
            -(e as int) <= depth <= e,
            balanced_end(t@, 1) == balanced_end(t@, e as int),
        decreases t@.len() - e,
    {
        proof {
            assert(t@.take(e + 1).drop_last() =~= t@.take(e as int));
            assert(t@.take(e + 1).last() == t@[e as int]);
        }
        let c: char = t[e];
        if c == '{' {
            depth = depth + 1;
        } else if c == '}' {
            depth = depth - 1;
        }
        e += 1;
        if depth == 0 {
            return Some(from_chars(slice_subrange(t, 0, e)));
        }
    }
    proof {
        assert(balanced_end(t@, e + 1) is None);
    }
    None
}

/// What is extracted starts with an opening brace, is balanced, and has no
/// shorter start that is.
pub proof fn first_object_is_balanced(s: Seq<char>)
    ensures
        first_object(s) matches Some(o) ==> {
            &&& o.len() > 0
            &&& o[0] == '{'
            &&& brace_balance(o) == 0
            &&& forall|k: int| 0 < k < o.len() ==> brace_balance(#[trigger] o.take(k)) != 0
        },
{
    let start = text::first_index(s, '{');
    text::lemma_first_index_props(s, '{');
    if start < s.len() {
        let t = s.skip(start);
        lemma_balanced_end(t, 1);
        if let Some(e) = balanced_end(t, 1) {
            let o = t.take(e);
            assert forall|k: int| 0 < k < o.len() implies brace_balance(
                #[trigger] o.take(k),
            ) != 0 by {
                assert(o.take(k) =~= t.take(k));
            }
        }
    }
}

proof fn lemma_balanced_end(t: Seq<char>, from: int)
    requires
        0 <= from,
    ensures
        balanced_end(t, from) matches Some(e) ==> {
            &&& from <= e <= t.len()
            &&& brace_balance(t.take(e)) == 0
            &&& forall|k: int| from <= k < e ==> brace_balance(#[trigger] t.take(k)) != 0
        },
    decreases t.len() + 1 - from,
{
    if from <= t.len() && brace_balance(t.take(from)) != 0 {
        lemma_balanced_end(t, from + 1);
    }
}

} // verus!
