//! Replaces names, email addresses and phone numbers by tokens before a text
//! leaves the machine, and puts them back into what comes home.
use vstd::prelude::*;

use crate::error::CoreError;
use crate::pattern;
use crate::pattern::{find_pattern, EMAIL_PATTERN, PHONE_PATTERN};
use crate::text;
use crate::text_map;
use crate::text_map::TextMap;
use crate::text::{
    append_chars, append_str, byte_length, char_ascii_lower, chars_eq, decimal_chars, from_chars,
    order_by_weight, replace_chars, to_chars,
};
use vstd::slice::slice_subrange;

verus! {

broadcast use vstd::seq::group_seq_axioms;

/// The classes of text that are scrubbed.
#[derive(Clone, Copy, Debug, PartialEq, Eq, Structural)]
pub enum EntityClass {
    Person,
    Email,
    Phone,
}

/// The word that a token of the class carries.
pub open spec fn class_word(class: EntityClass) -> Seq<char> {
    match class {
        EntityClass::Person => "PERSON"@,
        EntityClass::Email => "EMAIL"@,
        EntityClass::Phone => "PHONE"@,
    }
}

/// The token of the `n`th entity of a class: `[PERSON_1]` and the like.
pub open spec fn token_text(class: EntityClass, n: nat) -> Seq<char> {
    "["@ + class_word(class) + "_"@ + text::decimal(n) + "]"@
}

/// One scrubbed entity: its class, what stood in the text, and its token.
#[verifier::ext_equal]
pub struct Scrubbed {
    pub class: EntityClass,
    pub original: Seq<char>,
    pub token: Seq<char>,
}

/// The number of entities of `class`.
pub open spec fn class_count(entries: Seq<Scrubbed>, class: EntityClass) -> nat
    decreases entries.len(),
{
    if entries.len() == 0 {
        0
    } else {
        class_count(entries.drop_last(), class) + if entries.last().class == class {
            1nat
        } else {
            0nat
        }
    }
}

/// The index of the entity of `class` with this original, from `from` on; the
/// length if there is none.
pub open spec fn entry_index(
    entries: Seq<Scrubbed>,
    class: EntityClass,
    original: Seq<char>,
    from: int,
) -> int
    decreases entries.len() - from,
{
    if from >= entries.len() {
        entries.len() as int
    } else if entries[from].class == class && entries[from].original == original {
        from
    } else {
        entry_index(entries, class, original, from + 1)
    }
}

/// The entities after `original` was met: itself again, or one more.
pub open spec fn entries_with(
    entries: Seq<Scrubbed>,
    class: EntityClass,
    original: Seq<char>,
) -> Seq<Scrubbed> {
    if entry_index(entries, class, original, 0) < entries.len() {
        entries
    } else {
        entries.push(
            Scrubbed {
                class,
                original,
                token: token_text(class, class_count(entries, class) + 1),
            },
        )
    }
}

/// The token that stands for `original`.
pub open spec fn token_for(
    entries: Seq<Scrubbed>,
    class: EntityClass,
    original: Seq<char>,
) -> Seq<char> {
    let after = entries_with(entries, class, original);
    after[entry_index(after, class, original, 0)].token
}

/// A text and the entities scrubbed from it so far.
#[verifier::ext_equal]
pub struct Redaction {
    pub text: Seq<char>,
    pub entries: Seq<Scrubbed>,
}

/// `text` from `from` on, with each span replaced by the token of what stands
/// in it.
pub open spec fn substitute(
    text: Seq<char>,
    spans: Seq<(int, int)>,
    class: EntityClass,
    entries: Seq<Scrubbed>,
    from: int,
) -> Redaction
    decreases spans.len(),
{
    if spans.len() == 0 {
        Redaction { text: text.skip(from), entries }
    } else {
        let original = text.subrange(spans[0].0, spans[0].1);
        let rest = substitute(
            text,
            spans.drop_first(),
            class,
            entries_with(entries, class, original),
            spans[0].1,
        );
        Redaction {
            text: text.subrange(from, spans[0].0) + token_for(entries, class, original)
                + rest.text,
            entries: rest.entries,
        }
    }
}

// ---------------------------------------------------------------------------
// Where names stand
// ---------------------------------------------------------------------------

/// `low`, a name in lower case, is the lower case of what stands in `hay` from
/// `i` to `k`.
pub open spec fn name_at(hay: Seq<char>, low: Seq<char>, i: int, k: int) -> bool {
    0 <= i < k <= hay.len() && text::lower_case(hay.subrange(i, k)) == low
}

/// The first end from `k` on of a stretch from `i` in which the name stands; `i`
/// where there is none. No text is longer than its lower case.
pub open spec fn name_end(hay: Seq<char>, low: Seq<char>, i: int, k: int) -> int
    decreases i + low.len() + 1 - k,
{
    if k > hay.len() || k > i + low.len() {
        i
    } else if name_at(hay, low, i, k) {
        k
    } else {
        name_end(hay, low, i, k + 1)
    }
}

/// The stretches from `i` on in which the name stands, each taken as it comes,
/// without overlap.
pub open spec fn name_spans_from(hay: Seq<char>, low: Seq<char>, i: int) -> Seq<(int, int)>
    decreases hay.len() - i,
{
    if i >= hay.len() {
        Seq::empty()
    } else {
        let k = name_end(hay, low, i, i + 1);
        if i < k <= hay.len() {
            seq![(i, k)] + name_spans_from(hay, low, k)
        } else {
            name_spans_from(hay, low, i + 1)
        }
    }
}

/// The spans of `hay` in which `name` stands, whatever its case.
pub open spec fn name_spans(hay: Seq<char>, name: Seq<char>) -> Seq<(int, int)> {
    name_spans_from(hay, text::lower_case(name), 0)
}

// ---------------------------------------------------------------------------
// The whole redaction
// ---------------------------------------------------------------------------

/// The text and entities after each of `names`, in order, was scrubbed.
pub open spec fn scrub_names(names: Seq<Seq<char>>, state: Redaction) -> Redaction
    decreases names.len(),
{
    if names.len() == 0 {
        state
    } else {
        scrub_names(
            names.drop_first(),
            substitute(
                state.text,
                name_spans(state.text, names[0]),
                EntityClass::Person,
                state.entries,
                0,
            ),
        )
    }
}

/// The text and entities after the matches of `pattern` were scrubbed.
pub open spec fn scrub_pattern(
    pattern: Seq<char>,
    class: EntityClass,
    state: Redaction,
) -> Redaction {
    substitute(state.text, pattern::pattern_spans(pattern, state.text), class, state.entries, 0)
}

/// What becomes of `input`: first the names are scrubbed, then email
/// addresses, then phone numbers.
pub open spec fn redaction(names: Seq<Seq<char>>, input: Seq<char>) -> Redaction {
    let named = scrub_names(names, Redaction { text: input, entries: Seq::empty() });
    let mailed = scrub_pattern(EMAIL_PATTERN@, EntityClass::Email, named);
    scrub_pattern(PHONE_PATTERN@, EntityClass::Phone, mailed)
}

/// The texts that a vector of strings holds.
pub open spec fn texts(v: Seq<String>) -> Seq<Seq<char>> {
    v.map_values(|s: String| s@)
}

/// One scrubbed entity.
#[derive(Debug)]
struct Entry {
    class: EntityClass,
    original: Vec<char>,
    token: Vec<char>,
}

impl View for Entry {
    type V = Scrubbed;

    closed spec fn view(&self) -> Scrubbed {
        Scrubbed { class: self.class, original: self.original@, token: self.token@ }
    }
}

spec fn scrubbed(v: Seq<Entry>) -> Seq<Scrubbed> {
    v.map_values(|e: Entry| e@)
}

/// `entry_index` is the first index with the class and original, or the length.
proof fn lemma_entry_index(
    entries: Seq<Scrubbed>,
    class: EntityClass,
    original: Seq<char>,
    from: int,
    n: int,
)
    requires
        0 <= from <= n <= entries.len(),
        forall|k: int|
            from <= k < n ==> !((#[trigger] entries[k]).class == class && entries[k].original
                == original),
        n < entries.len() ==> entries[n].class == class && entries[n].original == original,
    ensures
        entry_index(entries, class, original, from) == n,
    decreases n - from,
{
    if from < n {
        lemma_entry_index(entries, class, original, from + 1, n);
    }
}

/// What `entry_index` finds, and that nothing stands before it.
pub proof fn lemma_entry_index_props(
    entries: Seq<Scrubbed>,
    class: EntityClass,
    original: Seq<char>,
    from: int,
)
    requires
        0 <= from <= entries.len(),
    ensures
        from <= entry_index(entries, class, original, from) <= entries.len(),
        ({
            let n = entry_index(entries, class, original, from);
            n < entries.len() ==> entries[n].class == class && entries[n].original == original
        }),
        forall|k: int|
            from <= k < entry_index(entries, class, original, from) ==> !((
            #[trigger] entries[k]).class == class && entries[k].original == original),
    decreases entries.len() - from,
{
    if from < entries.len() && !(entries[from].class == class && entries[from].original
        == original) {
        lemma_entry_index_props(entries, class, original, from + 1);
    }
}

fn class_str(class: EntityClass) -> (r: &'static str)
    ensures
        r@ == class_word(class),
{
    match class {
        EntityClass::Person => "PERSON",
        EntityClass::Email => "EMAIL",
        EntityClass::Phone => "PHONE",
    }
}

fn make_token(class: EntityClass, n: u128) -> (r: Vec<char>)
    ensures
        r@ == token_text(class, n as nat),
{
    let mut r: Vec<char> = to_chars("[");
    append_str(&mut r, class_str(class));
    append_str(&mut r, "_");
    let digits = decimal_chars(n);
    append_chars(&mut r, digits.as_slice());
    append_str(&mut r, "]");
    r
}

fn count_class(entries: &Vec<Entry>, class: EntityClass) -> (n: u128)
    ensures
        n == class_count(scrubbed(entries@), class),
        n <= entries@.len(),
{
    let mut n: u128 = 0;
    for i in 0..entries.len()
        invariant
            n == class_count(scrubbed(entries@).take(i as int), class),
            n <= i,
    {
        proof {
            let s = scrubbed(entries@);
            assert(s.take(i + 1).drop_last() =~= s.take(i as int));
            assert(s.take(i + 1).last() == entries@[i as int]@);
        }
        if entries[i].class == class {
            n += 1;
        }
    }
    proof {
        assert(scrubbed(entries@).take(entries@.len() as int) =~= scrubbed(entries@));
    }
    n
}

/// Assigns a token to `original`, or finds the one it has.
fn assign_token(original: &[char], class: EntityClass, entries: &mut Vec<Entry>) -> (i: usize)
    ensures
        i < final(entries)@.len(),
        final(entries)@[i as int].token@ == token_for(
            scrubbed(old(entries)@),
            class,
            original@,
        ),
        scrubbed(final(entries)@) == entries_with(scrubbed(old(entries)@), class, original@),
{
    let ghost before = scrubbed(entries@);
    let mut i: usize = 0;
    while i < entries.len()
        invariant
            i <= entries@.len(),
            before == scrubbed(entries@),
            *entries == *old(entries),
            forall|k: int|
                0 <= k < i ==> !((#[trigger] before[k]).class == class && before[k].original
                    == original@),
        decreases entries@.len() - i,
    {
        proof {
            assert(before[i as int] == entries@[i as int]@);
        }
        if entries[i].class == class && chars_eq(entries[i].original.as_slice(), original) {
            proof {
                lemma_entry_index(before, class, original@, 0, i as int);
            }
            return i;
        }
        i += 1;
    }
    proof {
        lemma_entry_index(before, class, original@, 0, i as int);
    }
    let n: u128 = count_class(entries, class) + 1;
    let token = make_token(class, n);
    let mut copy: Vec<char> = Vec::new();
    append_chars(&mut copy, original);
    entries.push(Entry { class, original: copy, token });
    proof {
        let after = scrubbed(entries@);
        assert(copy@ =~= original@);
        assert(after =~= entries_with(before, class, original@));
        assert forall|k: int| 0 <= k < i implies !((#[trigger] after[k]).class == class
            && after[k].original == original@) by {
            assert(after[k] == before[k]);
        }
        lemma_entry_index(after, class, original@, 0, i as int);
    }
    i
}

/// The text with every span replaced by its token.
fn replace_spans(
    text: &[char],
    spans: &Vec<(usize, usize)>,
    class: EntityClass,
    entries: &mut Vec<Entry>,
) -> (r: Vec<char>)
    requires
        pattern::spans_in(pattern::int_spans(spans@), 0, text@.len() as int),
    ensures
        ({
            let done = substitute(
                text@,
                pattern::int_spans(spans@),
                class,
                scrubbed(old(entries)@),
                0,
            );
            r@ == done.text && scrubbed(final(entries)@) == done.entries
        }),
{
    let ghost all = pattern::int_spans(spans@);
    let ghost done = substitute(text@, all, class, scrubbed(entries@), 0);
    let mut out: Vec<char> = Vec::new();
    let mut from: usize = 0;
    let mut k: usize = 0;
    proof {
        assert(all.skip(0) =~= all);
        assert(out@ + done.text =~= done.text);
    }
    while k < spans.len()
        invariant
            k <= spans@.len(),
            all == pattern::int_spans(spans@),
            pattern::spans_in(all, 0, text@.len() as int),
            from <= text@.len(),
            k > 0 ==> from == all[k - 1].1,
            k == 0 ==> from == 0,
            out@ + substitute(
                text@,
                all.skip(k as int),
                class,
                scrubbed(entries@),
                from as int,
            ).text == done.text,
            substitute(
                text@,
                all.skip(k as int),
                class,
                scrubbed(entries@),
                from as int,
            ).entries == done.entries,
        decreases spans@.len() - k,
    {
        let ghost before = out@;
        let ghost rest = all.skip(k as int);
        let (a, b) = spans[k];
        proof {
            assert(rest[0] == all[k as int]);
            assert(all[k as int] == (a as int, b as int));
            assert(rest.drop_first() =~= all.skip(k + 1));
            if k > 0 {
                assert(all[k - 1].1 <= all[k as int].0);
            }
        }
        append_chars(&mut out, slice_subrange(text, from, a));
        let i: usize = assign_token(slice_subrange(text, a, b), class, entries);
        append_chars(&mut out, entries[i].token.as_slice());
        from = b;
        k += 1;
        proof {
            let tail = substitute(
                text@,
                all.skip(k as int),
                class,
                scrubbed(entries@),
                from as int,
            );
            assert(out@ + tail.text =~= done.text);
        }
    }
    append_chars(&mut out, slice_subrange(text, from, text.len()));
    proof {
        assert(all.skip(k as int).len() == 0);
        assert(text@.subrange(from as int, text@.len() as int) =~= text@.skip(from as int));
    }
    out
}

/// What `name_end` finds, and that it passes nothing over.
pub proof fn lemma_name_end(hay: Seq<char>, low: Seq<char>, i: int, k: int)
    requires
        0 <= i < k,
    ensures
        name_end(hay, low, i, k) != i ==> name_at(hay, low, i, name_end(hay, low, i, k)),
        name_end(hay, low, i, k) == i ==> forall|m: int|
            k <= m <= i + low.len() ==> !#[trigger] name_at(hay, low, i, m),
    decreases i + low.len() + 1 - k,
{
    if k <= hay.len() && k <= i + low.len() && !name_at(hay, low, i, k) {
        lemma_name_end(hay, low, i, k + 1);
    }
}

/// The spans found for a name are ordered, do not overlap, lie in the text from
/// `i` on, and the name stands in each.
pub proof fn lemma_name_spans_from(hay: Seq<char>, low: Seq<char>, i: int)
    requires
        0 <= i <= hay.len(),
    ensures
        pattern::spans_in(name_spans_from(hay, low, i), i, hay.len() as int),
        forall|x: int|
            0 <= x < name_spans_from(hay, low, i).len() ==> name_at(
                hay,
                low,
                (#[trigger] name_spans_from(hay, low, i)[x]).0,
                name_spans_from(hay, low, i)[x].1,
            ),
    decreases hay.len() - i,
{
    if i < hay.len() {
        let k = name_end(hay, low, i, i + 1);
        let all = name_spans_from(hay, low, i);
        lemma_name_end(hay, low, i, i + 1);
        if i < k <= hay.len() {
            let rest = name_spans_from(hay, low, k);
            lemma_name_spans_from(hay, low, k);
            assert forall|x: int| 0 <= x < all.len() implies i <= (#[trigger] all[x]).0
                <= all[x].1 <= hay.len() && name_at(hay, low, all[x].0, all[x].1) by {
                if x > 0 {
                    assert(all[x] == rest[x - 1]);
                }
            }
            assert forall|x: int, y: int| 0 <= x < y < all.len() implies (#[trigger] all[x]).1
                <= (#[trigger] all[y]).0 by {
                assert(all[y] == rest[y - 1]);
                if x > 0 {
                    assert(all[x] == rest[x - 1]);
                }
            }
        } else {
            lemma_name_spans_from(hay, low, i + 1);
        }
    }
}

/// The spans of a name are ordered, do not overlap and lie in the text.
pub proof fn lemma_name_spans(hay: Seq<char>, name: Seq<char>)
    ensures
        pattern::spans_in(name_spans(hay, name), 0, hay.len() as int),
{
    lemma_name_spans_from(hay, text::lower_case(name), 0);
}

/// Whether an ASCII text in small letters is `low`.
fn is_small_form(s: &[char], low: &Vec<char>) -> (r: bool)
    ensures
        r == (text::ascii_lowercase(s@) == low@),
{
    if s.len() != low.len() {
        return false;
    }
    for i in 0..s.len()
        invariant
            s@.len() == low@.len(),
            forall|k: int| 0 <= k < i ==> text::ascii_lower(s@[k]) == #[trigger] low@[k],
    {
        if char_ascii_lower(s[i]) != low[i] {
            proof {
                assert(text::ascii_lowercase(s@)[i as int] != low@[i as int]);
            }
            return false;
        }
    }
    proof {
        assert(text::ascii_lowercase(s@) =~= low@);
    }
    true
}

/// The end of the name that stands at `i`; `i` where none does.
fn find_name_end(hay: &[char], low: &Vec<char>, i: usize) -> (k: usize)
    requires
        i < hay@.len(),
    ensures
        k == name_end(hay@, low@, i as int, i + 1),
{
    let left: usize = hay.len() - i;
    let mut n: usize = 0;
    let mut ascii: bool = true;
    while n < low.len() && n < left
        invariant
            left == hay@.len() - i,
            hay@.len() <= usize::MAX,
            n <= left,
            ascii == text::ascii(hay@.subrange(i as int, i + n)),
            name_end(hay@, low@, i as int, i + 1) == name_end(hay@, low@, i as int, i + n + 1),
        decreases left - n,
    {
        let ghost before = hay@.subrange(i as int, i + n);
        let c = hay[i + n];
        ascii = ascii && (c as u32) < 0x80;
        n = n + 1;
        let stretch = slice_subrange(hay, i, i + n);
        proof {
            assert(stretch@ =~= before.push(c));
            if ascii {
                assert forall|x: int| 0 <= x < stretch@.len() implies (#[trigger] stretch@[x]
                    as u32) < 0x80 by {
                    if x < before.len() {
                        assert(stretch@[x] == before[x]);
                    }
                }
            } else if (c as u32) < 0x80 {
                let x = choose|x: int| 0 <= x < before.len() && (#[trigger] before[x] as u32) >= 0x80;
                assert(stretch@[x] == before[x]);
            } else {
                assert(stretch@[n - 1] == c);
            }
        }
        let found = if ascii {
            is_small_form(stretch, low)
        } else {
            let lowered = to_chars(from_chars(stretch).as_str().to_lowercase().as_str());
            chars_eq(lowered.as_slice(), low.as_slice())
        };
        if found {
            return i + n;
        }
    }
    i
}

/// The spans of `hay` in which `name` stands, whatever its case.
fn find_name(hay: &[char], name: &str) -> (spans: Vec<(usize, usize)>)
    ensures
        pattern::int_spans(spans@) == name_spans(hay@, name@),
        pattern::spans_in(pattern::int_spans(spans@), 0, hay@.len() as int),
{
    let low = to_chars(name.to_lowercase().as_str());
    let ghost all = name_spans(hay@, name@);
    let mut spans: Vec<(usize, usize)> = Vec::new();
    let mut i: usize = 0;
    proof {
        lemma_name_spans(hay@, name@);
        assert(pattern::int_spans(spans@) + all =~= all);
    }
    while i < hay.len()
        invariant
            i <= hay@.len(),
            pattern::int_spans(spans@) + name_spans_from(hay@, low@, i as int) == all,
        decreases hay@.len() - i,
    {
        proof {
            lemma_name_end(hay@, low@, i as int, i + 1);
        }
        let k: usize = find_name_end(hay, &low, i);
        if k > i {
            let ghost before = pattern::int_spans(spans@);
            let ghost rest = name_spans_from(hay@, low@, k as int);
            spans.push((i, k));
            proof {
                assert(pattern::int_spans(spans@) =~= before.push((i as int, k as int)));
                assert(before + (seq![(i as int, k as int)] + rest) =~= pattern::int_spans(spans@)
                    + rest);
            }
            i = k;
        } else {
            i = i + 1;
        }
    }
    proof {
        assert(name_spans_from(hay@, low@, i as int).len() == 0);
        assert(pattern::int_spans(spans@) =~= all);
    }
    spans
}

// ---------------------------------------------------------------------------
// The map back
// ---------------------------------------------------------------------------

/// Map from a token back to the text that it stands for.
pub type ReverseMap = TextMap;

/// The tokens and originals of the entities.
pub open spec fn reverse_pairs(entries: Seq<Scrubbed>) -> Seq<(Seq<char>, Seq<char>)> {
    entries.map_values(|e: Scrubbed| (e.token, e.original))
}

// ---------------------------------------------------------------------------
// Entities have different tokens
// ---------------------------------------------------------------------------

/// Each entity has the token of its place among those of its class, and no two
/// of a class have the same original.
pub open spec fn numbered(entries: Seq<Scrubbed>) -> bool {
    &&& forall|i: int|
        0 <= i < entries.len() ==> (#[trigger] entries[i]).token == token_text(
            entries[i].class,
            class_count(entries.take(i), entries[i].class) + 1,
        )
    &&& forall|i: int, j: int|
        0 <= i < j < entries.len() ==> !((#[trigger] entries[i]).class == (
        #[trigger] entries[j]).class && entries[i].original == entries[j].original)
}

/// Two numbers with the same decimal text are the same.
pub proof fn lemma_decimal_injective(a: nat, b: nat)
    requires
        text::decimal(a) == text::decimal(b),
    ensures
        a == b,
    decreases a,
{
    let x = text::decimal(a);
    let y = text::decimal(b);
    lemma_decimal_digits(a);
    lemma_decimal_digits(b);
    if a >= 10 && b >= 10 {
        assert(x.drop_last() =~= text::decimal(a / 10));
        assert(y.drop_last() =~= text::decimal(b / 10));
        lemma_decimal_injective(a / 10, b / 10);
        assert(x.last() == y.last());
        assert(x.last() as u32 == a % 10 + 48);
        assert(y.last() as u32 == b % 10 + 48);
    } else if a >= 10 {
        lemma_decimal_digits(a / 10);
        assert(x.len() >= 2);
    } else if b >= 10 {
        lemma_decimal_digits(b / 10);
        assert(y.len() >= 2);
    } else {
        assert(x[0] == y[0]);
        assert(x[0] as u32 == a + 48);
        assert(y[0] as u32 == b + 48);
    }
}

/// A decimal text is made of digits, one at least.
pub proof fn lemma_decimal_digits(a: nat)
    ensures
        text::decimal(a).len() >= 1,
        forall|i: int|
            0 <= i < text::decimal(a).len() ==> '0' <= (#[trigger] text::decimal(
                a,
            )[i]) <= '9',
    decreases a,
{
    if a >= 10 {
        lemma_decimal_digits(a / 10);
    }
}

/// A token starts with its only opening bracket and ends with its only closing
/// one.
pub proof fn lemma_token_shape(class: EntityClass, n: nat)
    ensures
        token_text(class, n).len() >= 3,
        token_text(class, n)[0] == '[',
        token_text(class, n).last() == ']',
        forall|i: int|
            0 < i < token_text(class, n).len() ==> #[trigger] token_text(class, n)[i] != '[',
        forall|i: int|
            0 <= i < token_text(class, n).len() - 1 ==> #[trigger] token_text(class, n)[i]
                != ']',
{
    reveal_strlit("[");
    reveal_strlit("]");
    reveal_strlit("_");
    reveal_strlit("PERSON");
    reveal_strlit("EMAIL");
    reveal_strlit("PHONE");
    lemma_decimal_digits(n);
    let w = class_word(class);
    let d = text::decimal(n);
    let t = token_text(class, n);
    assert(t.len() == 3 + w.len() + d.len());
    assert forall|i: int| 0 < i < t.len() - 1 implies t[i] != '[' && t[i] != ']' by {
        if 1 <= i <= w.len() {
            assert(t[i] == w[i - 1]);
        } else if i == w.len() + 1 {
            assert(t[i] == '_');
        } else {
            assert(t[i] == d[i - w.len() - 2]);
        }
    }
}

/// Tokens of different classes or numbers differ.
pub proof fn lemma_token_injective(c1: EntityClass, n1: nat, c2: EntityClass, n2: nat)
    requires
        token_text(c1, n1) == token_text(c2, n2),
    ensures
        c1 == c2,
        n1 == n2,
{
    reveal_strlit("[");
    reveal_strlit("]");
    reveal_strlit("_");
    reveal_strlit("PERSON");
    reveal_strlit("EMAIL");
    reveal_strlit("PHONE");
    let t1 = token_text(c1, n1);
    let t2 = token_text(c2, n2);
    lemma_decimal_digits(n1);
    lemma_decimal_digits(n2);
    assert(t1[1] == class_word(c1)[0]);
    assert(t2[1] == class_word(c2)[0]);
    assert(t1[2] == class_word(c1)[1]);
    assert(t2[2] == class_word(c2)[1]);
    assert(c1 == c2);
    let w = class_word(c1).len() as int;
    assert(t1.subrange(w + 2, t1.len() - 1) =~= text::decimal(n1));
    assert(t2.subrange(w + 2, t2.len() - 1) =~= text::decimal(n2));
    lemma_decimal_injective(n1, n2);
}

/// A longer list of entities has no fewer of a class.
pub proof fn lemma_class_count_monotonic(
    entries: Seq<Scrubbed>,
    class: EntityClass,
    i: int,
    j: int,
)
    requires
        0 <= i <= j <= entries.len(),
    ensures
        class_count(entries.take(i), class) <= class_count(entries.take(j), class),
    decreases j - i,
{
    if i < j {
        lemma_class_count_monotonic(entries, class, i, j - 1);
        assert(entries.take(j).drop_last() =~= entries.take(j - 1));
    }
}

/// Different entities have different tokens.
pub proof fn lemma_tokens_distinct(entries: Seq<Scrubbed>)
    requires
        numbered(entries),
    ensures
        forall|i: int, j: int|
            0 <= i < j < entries.len() ==> (#[trigger] entries[i]).token != (
            #[trigger] entries[j]).token,
{
    assert forall|i: int, j: int| 0 <= i < j < entries.len() implies (
    #[trigger] entries[i]).token != (#[trigger] entries[j]).token by {
        let c = entries[i].class;
        if entries[i].token == entries[j].token {
            lemma_token_injective(
                c,
                class_count(entries.take(i), c) + 1,
                entries[j].class,
                class_count(entries.take(j), entries[j].class) + 1,
            );
            lemma_class_count_monotonic(entries, c, i + 1, j);
            assert(entries.take(i + 1).drop_last() =~= entries.take(i));
        }
    }
}

/// Meeting one more original keeps the numbering.
pub proof fn lemma_entries_with_numbered(
    entries: Seq<Scrubbed>,
    class: EntityClass,
    original: Seq<char>,
)
    requires
        numbered(entries),
    ensures
        numbered(entries_with(entries, class, original)),
{
    let after = entries_with(entries, class, original);
    lemma_entry_index_props(entries, class, original, 0);
    if entry_index(entries, class, original, 0) >= entries.len() {
        assert forall|i: int| 0 <= i < after.len() implies (#[trigger] after[i]).token
            == token_text(after[i].class, class_count(after.take(i), after[i].class) + 1) by {
            assert(after.take(i) =~= entries.take(i));
            if i < entries.len() {
                assert(after[i] == entries[i]);
            } else {
                assert(entries.take(i) =~= entries);
            }
        }
    }
}

/// Scrubbing spans keeps the numbering.
pub proof fn lemma_substitute_numbered(
    text: Seq<char>,
    spans: Seq<(int, int)>,
    class: EntityClass,
    entries: Seq<Scrubbed>,
    from: int,
)
    requires
        numbered(entries),
    ensures
        numbered(substitute(text, spans, class, entries, from).entries),
    decreases spans.len(),
{
    if spans.len() > 0 {
        let original = text.subrange(spans[0].0, spans[0].1);
        lemma_entries_with_numbered(entries, class, original);
        lemma_substitute_numbered(
            text,
            spans.drop_first(),
            class,
            entries_with(entries, class, original),
            spans[0].1,
        );
    }
}

/// Scrubbing names keeps the numbering.
pub proof fn lemma_scrub_names_numbered(names: Seq<Seq<char>>, state: Redaction)
    requires
        numbered(state.entries),
    ensures
        numbered(scrub_names(names, state).entries),
    decreases names.len(),
{
    if names.len() > 0 {
        let spans = name_spans(state.text, names[0]);
        lemma_substitute_numbered(
            state.text,
            spans,
            EntityClass::Person,
            state.entries,
            0,
        );
        lemma_scrub_names_numbered(
            names.drop_first(),
            substitute(state.text, spans, EntityClass::Person, state.entries, 0),
        );
    }
}

/// The entities of a redaction are numbered within their classes, and no two
/// of them share a token.
pub proof fn redaction_numbers_entities(names: Seq<Seq<char>>, input: Seq<char>)
    ensures
        numbered(redaction(names, input).entries),
        text_map::distinct_keys(reverse_pairs(redaction(names, input).entries)),
{
    let start = Redaction { text: input, entries: Seq::empty() };
    lemma_scrub_names_numbered(names, start);
    let named = scrub_names(names, start);
    lemma_substitute_numbered(
        named.text,
        pattern::pattern_spans(EMAIL_PATTERN@, named.text),
        EntityClass::Email,
        named.entries,
        0,
    );
    let mailed = scrub_pattern(EMAIL_PATTERN@, EntityClass::Email, named);
    lemma_substitute_numbered(
        mailed.text,
        pattern::pattern_spans(PHONE_PATTERN@, mailed.text),
        EntityClass::Phone,
        mailed.entries,
        0,
    );
    lemma_tokens_distinct(redaction(names, input).entries);
}

// ---------------------------------------------------------------------------
// The redactor
// ---------------------------------------------------------------------------

/// `text` with the tokens at the indices `order` of the pairs replaced, one
/// after the other, by what they stand for.
pub open spec fn restore(
    text: Seq<char>,
    pairs: Seq<(Seq<char>, Seq<char>)>,
    order: Seq<usize>,
) -> Seq<char>
    decreases order.len(),
{
    if order.len() == 0 {
        text
    } else {
        let p = pairs[order[0] as int];
        restore(text::replace_all(text, p.0, p.1), pairs, order.drop_first())
    }
}

/// The byte lengths of the keys.
pub open spec fn key_weights(pairs: Seq<(Seq<char>, Seq<char>)>) -> Seq<u128> {
    pairs.map_values(|p: (Seq<char>, Seq<char>)| text::byte_len(p.0) as u128)
}

/// `out` is `text` with the tokens replaced, the longest token first; those of
/// the same length in their order in the map.
pub open spec fn is_restored(
    out: Seq<char>,
    text: Seq<char>,
    pairs: Seq<(Seq<char>, Seq<char>)>,
) -> bool {
    exists|order: Seq<usize>|
        #[trigger] text::heaviest_first(order, key_weights(pairs)) && out == restore(
            text,
            pairs,
            order,
        )
}

/// The lengths of the names, in characters.
pub open spec fn name_weights(names: Seq<Seq<char>>) -> Seq<u128> {
    names.map_values(|n: Seq<char>| n.len() as u128)
}

/// The items of `s` at the indices `order`.
pub open spec fn reordered(s: Seq<Seq<char>>, order: Seq<usize>) -> Seq<Seq<char>> {
    order.map_values(|i: usize| s[i as int])
}

/// `sorted` holds the names, the longest first; names of the same length in
/// their order.
pub open spec fn longest_first(sorted: Seq<Seq<char>>, names: Seq<Seq<char>>) -> bool {
    exists|order: Seq<usize>|
        #[trigger] text::heaviest_first(order, name_weights(names)) && sorted == reordered(
            names,
            order,
        )
}

/// Scrubber of names, email addresses and phone numbers.
///
/// The three classes are scrubbed in that order. The same original gets the
/// same token within one call; each call numbers afresh.
#[derive(Debug)]
pub struct Redactor {
    names: Vec<String>,
}

impl Redactor {
    /// The names in the order in which they are scrubbed.
    pub closed spec fn names(&self) -> Seq<Seq<char>> {
        texts(self.names@)
    }

    /// No name is empty: an empty one would match everywhere without end.
    pub open spec fn ready(&self) -> bool {
        forall|i: int| 0 <= i < self.names().len() ==> (#[trigger] self.names()[i]).len() > 0
    }

    /// Whether no name is empty.
    pub fn is_ready(&self) -> (r: bool)
        ensures
            r == self.ready(),
    {
        for i in 0..self.names.len()
            invariant
                self.names().len() == self.names@.len(),
                forall|k: int| 0 <= k < i ==> (#[trigger] self.names()[k]).len() > 0,
        {
            let c = to_chars(self.names[i].as_str());
            proof {
                assert(self.names()[i as int] == c@);
            }
            if c.len() == 0 {
                return false;
            }
        }
        true
    }

    /// A redactor for the people of the vault; for no names where they could
    /// not be listed.
    pub fn build(people: Result<Vec<String>, CoreError>) -> (r: Result<Redactor, CoreError>)
        ensures
            r is Ok,
            longest_first(
                r->Ok_0.names(),
                match people {
                    Ok(names) => texts(names@),
                    Err(_) => Seq::empty(),
                },
            ),
    {
        let names = match people {
            Ok(names) => names,
            Err(_) => Vec::new(),
        };
        proof {
            if people is Err {
                assert(texts(names@) =~= Seq::empty());
            }
        }
        Ok(Redactor::from_names(names))
    }

    /// A redactor for the given names, the longest first; names of the same
    /// length keep their order.
    pub fn from_names(names: Vec<String>) -> (r: Redactor)
        ensures
            longest_first(r.names(), texts(names@)),
    {
        let mut weights: Vec<u128> = Vec::new();
        for i in 0..names.len()
            invariant
                weights@ == name_weights(texts(names@)).take(i as int),
        {
            let c = to_chars(names[i].as_str());
            weights.push(c.len() as u128);
            proof {
                assert(weights@ =~= name_weights(texts(names@)).take(i + 1));
            }
        }
        proof {
            assert(weights@ =~= name_weights(texts(names@)));
        }
        let order = order_by_weight(&weights);
        let mut sorted: Vec<String> = Vec::new();
        for i in 0..order.len()
            invariant
                text::heaviest_first(order@, weights@),
                weights@.len() == names@.len(),
                texts(sorted@) == reordered(texts(names@), order@).take(i as int),
        {
            let ghost before = texts(sorted@);
            let k: usize = order[i];
            proof {
                assert(order@[i as int] < weights@.len());
            }
            sorted.push(names[k].clone());
            proof {
                assert(texts(sorted@) =~= before.push(names@[k as int]@));
                assert(texts(sorted@) =~= reordered(texts(names@), order@).take(i + 1));
            }
        }
        proof {
            assert(texts(sorted@) =~= reordered(texts(names@), order@));
        }
        Redactor { names: sorted }
    }

    /// Scrubs `input`: the scrubbed text, and the map from each token to what
    /// it stands for.
    pub fn redact(&self, input: &str) -> (r: (String, ReverseMap))
        requires
            self.ready(),
        ensures
            r.0@ == redaction(self.names(), input@).text,
            r.1@ == reverse_pairs(redaction(self.names(), input@).entries),
            r.1.well_formed(),
    {
        let mut current = to_chars(input);
        let mut entries: Vec<Entry> = Vec::new();
        let ghost start = Redaction { text: input@, entries: Seq::empty() };
        proof {
            assert(scrubbed(entries@) =~= Seq::empty());
            assert(self.names().skip(0) =~= self.names());
        }
        for i in 0..self.names.len()
            invariant
                self.names().len() == self.names@.len(),
                scrub_names(
                    self.names().skip(i as int),
                    Redaction { text: current@, entries: scrubbed(entries@) },
                ) == scrub_names(self.names(), start),
        {
            proof {
                let rest = self.names().skip(i as int);
                assert(rest[0] == self.names@[i as int]@);
                assert(rest.drop_first() =~= self.names().skip(i + 1));
            }
            let spans = find_name(current.as_slice(), self.names[i].as_str());
            current = replace_spans(
                current.as_slice(),
                &spans,
                EntityClass::Person,
                &mut entries,
            );
        }
        proof {
            assert(self.names().skip(self.names().len() as int).len() == 0);
        }
        let emails = find_pattern(current.as_slice(), EMAIL_PATTERN);
        current = replace_spans(current.as_slice(), &emails, EntityClass::Email, &mut entries);
        let phones = find_pattern(current.as_slice(), PHONE_PATTERN);
        current = replace_spans(current.as_slice(), &phones, EntityClass::Phone, &mut entries);
        let mut pairs: Vec<(String, String)> = Vec::new();
        for i in 0..entries.len()
            invariant
                text_map::pairs_texts(pairs@) == reverse_pairs(
                    scrubbed(entries@),
                ).take(i as int),
        {
            let ghost before = text_map::pairs_texts(pairs@);
            let token = from_chars(entries[i].token.as_slice());
            let original = from_chars(entries[i].original.as_slice());
            pairs.push((token, original));
            proof {
                assert(text_map::pairs_texts(pairs@) =~= before.push(
                    (token@, original@),
                ));
                assert(text_map::pairs_texts(pairs@)
                    =~= reverse_pairs(scrubbed(entries@)).take(i + 1));
            }
        }
        proof {
            redaction_numbers_entities(self.names(), input@);
            assert(text_map::pairs_texts(pairs@) =~= reverse_pairs(scrubbed(entries@)));
        }
        let map = TextMap::from_pairs(pairs);
        (from_chars(current.as_slice()), map)
    }

    /// Puts back what the tokens stand for, the longest token first. A token
    /// that is not in the map stays.
    pub fn un_redact(text: &str, map: &ReverseMap) -> (r: String)
        ensures
            is_restored(r@, text@, map@),
    {
        let mut weights: Vec<u128> = Vec::new();
        let n: usize = map.len();
        for i in 0..n
            invariant
                n == map@.len(),
                weights@ == key_weights(map@).take(i as int),
        {
            let c = to_chars(map.key(i));
            weights.push(byte_length(c.as_slice()));
            proof {
                assert(map@[i as int].0 == c@);
                assert(weights@ =~= key_weights(map@).take(i + 1));
            }
        }
        proof {
            assert(weights@ =~= key_weights(map@));
        }
        let order = order_by_weight(&weights);
        let mut out = to_chars(text);
        proof {
            assert(order@.skip(0) =~= order@);
        }
        for i in 0..order.len()
            invariant
                text::heaviest_first(order@, weights@),
                weights@.len() == map@.len(),
                restore(out@, map@, order@.skip(i as int)) == restore(text@, map@, order@),
        {
            let k: usize = order[i];
            proof {
                assert(order@[i as int] < weights@.len());
                assert(order@.skip(i as int)[0] == order@[i as int]);
                assert(order@.skip(i as int).drop_first() =~= order@.skip(i + 1));
            }
            let from = to_chars(map.key(k));
            let to = to_chars(map.value(k));
            out = replace_chars(out.as_slice(), from.as_slice(), to.as_slice());
        }
        proof {
            assert(order@.skip(order@.len() as int).len() == 0);
        }
        from_chars(out.as_slice())
    }
}

} // verus!
