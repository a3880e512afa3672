//! What holds of the functions on texts, whatever the text.
use vstd::prelude::*;

use crate::text;

verus! {

// ---------------------------------------------------------------------------
// White space at the ends
// ---------------------------------------------------------------------------

/// Of the ASCII characters, the space and the five from tab to carriage return
/// are white space.
pub proof fn ascii_white_space(c: char)
    requires
        (c as u32) < 0x80,
    ensures
        text::white_space(c) <==> c == ' ' || 9 <= (c as u32) <= 13,
{
}

/// Beyond ASCII, white space is the next line, the spaces without a break, the
/// spaces of one width or another, and the separators of lines and paragraphs.
pub proof fn wide_white_space(c: char)
    requires
        (c as u32) >= 0x80,
    ensures
        text::white_space(c) <==> {
            ||| c == '\u{85}'
            ||| c == '\u{a0}'
            ||| c == '\u{1680}'
            ||| '\u{2000}' <= c <= '\u{200a}'
            ||| c == '\u{2028}'
            ||| c == '\u{2029}'
            ||| c == '\u{202f}'
            ||| c == '\u{205f}'
            ||| c == '\u{3000}'
        },
{
}

/// The text neither starts nor ends with white space.
pub open spec fn tight(s: Seq<char>) -> bool {
    s.len() > 0 ==> !text::white_space(s[0]) && !text::white_space(s.last())
}

/// Trimming takes white space from both ends, all of it and nothing else.
pub proof fn trimming_takes_white_space_alone(s: Seq<char>)
    ensures
        tight(text::trim(s)),
        exists|a: Seq<char>, b: Seq<char>|
            #![trigger text::blank(a), text::blank(b)]
            text::blank(a) && text::blank(b) && s == a + text::trim(s) + b,
{
    let t = text::trim_start(s);
    text::lemma_first_visible_props(s);
    text::lemma_visible_end_props(t);
    let n = text::first_visible(s);
    let m = text::visible_end(t);
    let a = s.take(n);
    let b = t.skip(m);
    assert forall|i: int| 0 <= i < b.len() implies text::white_space(#[trigger] b[i]) by {
        assert(b[i] == t[m + i]);
    }
    assert(text::blank(a) && text::blank(b));
    assert(s =~= a + text::trim(s) + b);
    let u = text::trim(s);
    if u.len() > 0 {
        assert(u[0] == t[0]);
        assert(t[0] == s[n]);
        assert(u.last() == t[m - 1]);
    }
}

/// White space round a text is what trimming takes.
pub proof fn white_space_round_a_text_is_trimmed(a: Seq<char>, s: Seq<char>, b: Seq<char>)
    requires
        text::blank(a),
        text::blank(b),
        s.len() > 0,
        tight(s),
    ensures
        text::trim(a + s + b) == s,
{
    let all = a + s + b;
    let n = a.len() as int;
    assert(all[n] == s[0]);
    text::lemma_first_visible(all, n);
    let t = text::trim_start(all);
    assert(t =~= s + b);
    assert forall|i: int| s.len() <= i < t.len() implies text::white_space(#[trigger] t[i]) by {
        assert(t[i] == b[i - s.len()]);
    }
    assert(t[s.len() - 1] == s.last());
    text::lemma_visible_end(t, s.len() as int);
    assert(text::trim(all) =~= s);
}

/// An excerpt is a start of the text, and as long as it may be.
pub proof fn an_excerpt_is_a_start(s: Seq<char>, n: nat)
    ensures
        text::starts_with(s, text::excerpt(s, n)),
        text::excerpt(s, n).len() == if s.len() < n {
            s.len()
        } else {
            n
        },
{
    let e = text::excerpt(s, n);
    assert(s.subrange(0, e.len() as int) =~= e);
}

// ---------------------------------------------------------------------------
// Lines
// ---------------------------------------------------------------------------

/// The lines, each with a newline behind it.
pub open spec fn joined(lines: Seq<Seq<char>>) -> Seq<char>
    decreases lines.len(),
{
    if lines.len() == 0 {
        Seq::empty()
    } else {
        lines[0] + seq!['\n'] + joined(lines.drop_first())
    }
}

/// The lines of a text without carriage returns are the text again, but for a
/// newline at its end; and no line holds a newline.
pub proof fn lines_make_up_the_text(s: Seq<char>)
    requires
        !s.contains('\r'),
    ensures
        s.len() > 0 && s.last() != '\n' ==> joined(text::lines(s)) == s.push('\n'),
        s.len() == 0 || s.last() == '\n' ==> joined(text::lines(s)) == s,
        forall|i: int|
            0 <= i < text::lines(s).len() ==> !(#[trigger] text::lines(s)[i]).contains('\n'),
    decreases s.len(),
{
    let all = text::lines(s);
    if s.len() > 0 {
        text::lemma_first_line_len(s);
        text::lemma_first_index_props(s, '\n');
        let k = text::first_index(s, '\n');
        let n = text::first_line_len(s);
        let raw = s.take(n);
        let line = text::line_text(raw);
        let rest = s.skip(n);
        assert(all[0] == line);
        assert(all.drop_first() =~= text::lines(rest));
        assert(!rest.contains('\r')) by {
            if rest.contains('\r') {
                let i = choose|i: int| 0 <= i < rest.len() && rest[i] == '\r';
                assert(s[n + i] == '\r');
            }
        }
        lines_make_up_the_text(rest);
        if k < s.len() {
            assert(raw.last() == '\n');
            let l = raw.drop_last();
            if l.len() > 0 {
                assert(l.last() == s[k - 1]);
            }
            assert(line =~= s.take(k));
            assert(s =~= line + seq!['\n'] + rest);
            if rest.len() > 0 {
                assert(rest.last() == s.last());
                if rest.last() != '\n' {
                    assert(s.push('\n') =~= line + seq!['\n'] + rest.push('\n'));
                }
            } else {
                assert(s.last() == s[k]);
                assert(text::lines(rest).len() == 0);
                assert(joined(text::lines(rest)) =~= Seq::empty());
            }
        } else {
            assert(raw =~= s);
            assert(s.last() == s[s.len() - 1]);
            assert(s.last() != '\n');
            assert(line =~= s);
            assert(rest.len() == 0);
            assert(text::lines(rest).len() == 0);
            assert(joined(text::lines(rest)) =~= Seq::empty());
            assert(joined(all) =~= s.push('\n'));
        }
        assert forall|i: int| 0 <= i < all.len() implies !(#[trigger] all[i]).contains('\n') by {
            if i == 0 {
                if line.contains('\n') {
                    let x = choose|x: int| 0 <= x < line.len() && line[x] == '\n';
                    assert(s[x] == '\n');
                }
            } else {
                assert(all[i] == text::lines(rest)[i - 1]);
            }
        }
    }
}

// ---------------------------------------------------------------------------
// Numbers
// ---------------------------------------------------------------------------

/// The number that decimal digits write.
pub open spec fn number_of(digits: Seq<char>) -> int
    decreases digits.len(),
{
    if digits.len() == 0 {
        0
    } else {
        10 * number_of(digits.drop_last()) + (digits.last() as u32 - 48)
    }
}

/// A number in decimal is made of digits, has no needless zero in front, and is
/// read as that number.
pub proof fn decimals_are_read_as_their_number(n: nat)
    ensures
        text::decimal(n).len() > 0,
        forall|i: int|
            0 <= i < text::decimal(n).len() ==> '0' <= #[trigger] text::decimal(n)[i] <= '9',
        number_of(text::decimal(n)) == n,
        text::decimal(n).len() > 1 ==> text::decimal(n)[0] != '0',
    decreases n,
{
    let d = text::decimal(n);
    if n >= 10 {
        decimals_are_read_as_their_number(n / 10);
        let e = text::decimal(n / 10);
        assert(d.drop_last() =~= e);
        assert(d[0] == e[0]);
        if e.len() == 1 {
            assert(e.drop_last() =~= Seq::empty());
            assert(number_of(e.drop_last()) == 0);
            assert(e.last() == e[0]);
        }
    } else {
        assert(d.drop_last() =~= Seq::empty());
        assert(number_of(d.drop_last()) == 0);
    }
}

// ---------------------------------------------------------------------------
// Replacement
// ---------------------------------------------------------------------------

/// Where a text does not stand, nothing is replaced.
pub proof fn nothing_is_replaced_where_nothing_stands(s: Seq<char>, p: Seq<char>, q: Seq<char>)
    requires
        p.len() > 0,
        forall|i: int| !#[trigger] text::occurs_at(s, p, i),
    ensures
        text::replace_all(s, p, q) == s,
    decreases s.len(),
{
    assert(!text::occurs_at(s, p, 0));
    if s.len() > 0 {
        let rest = s.drop_first();
        assert(rest =~= s.skip(1));
        assert forall|i: int| !#[trigger] text::occurs_at(rest, p, i) by {
            if text::occurs_at(rest, p, i) {
                text::lemma_occurs_in_suffix(s, p, 1, i + 1);
                assert(text::occurs_at(s, p, i + 1));
            }
        }
        nothing_is_replaced_where_nothing_stands(rest, p, q);
        assert(seq![s[0]] + rest =~= s);
    }
}

/// The first place where a text stands is replaced; what stands before it stays,
/// and the rest is treated in the same way.
pub proof fn the_first_place_is_replaced(s: Seq<char>, p: Seq<char>, q: Seq<char>, i: int)
    requires
        p.len() > 0,
        text::occurs_at(s, p, i),
        forall|k: int| 0 <= k < i ==> !#[trigger] text::occurs_at(s, p, k),
    ensures
        text::replace_all(s, p, q) == s.take(i) + q + text::replace_all(
            s.skip(i + p.len()),
            p,
            q,
        ),
    decreases i,
{
    if i == 0 {
        assert(s.take(0) + q =~= q);
    } else {
        let rest = s.drop_first();
        assert(rest =~= s.skip(1));
        assert(!text::occurs_at(s, p, 0));
        text::lemma_occurs_in_suffix(s, p, 1, i);
        assert forall|k: int| 0 <= k < i - 1 implies !#[trigger] text::occurs_at(rest, p, k) by {
            text::lemma_occurs_in_suffix(s, p, 1, k + 1);
            assert(!text::occurs_at(s, p, k + 1));
        }
        the_first_place_is_replaced(rest, p, q, i - 1);
        assert(rest.skip(i - 1 + p.len()) =~= s.skip(i + p.len()));
        assert(s.take(i) =~= seq![s[0]] + rest.take(i - 1));
        assert(text::replace_all(s, p, q) =~= s.take(i) + q + text::replace_all(
            s.skip(i + p.len()),
            p,
            q,
        ));
    }
}

// ---------------------------------------------------------------------------
// Letters and bytes
// ---------------------------------------------------------------------------

/// Making letters small changes capital letters of ASCII alone, each to the
/// letter that stands as far from `a` as it does from `A`.
pub proof fn capital_letters_become_small(c: char)
    ensures
        'A' <= c <= 'Z' ==> text::ascii_lower(c) as u32 - 'a' as u32 == c as u32 - 'A' as u32,
        !('A' <= c <= 'Z') ==> text::ascii_lower(c) == c,
{
}

/// A character takes as many bytes as UTF-8 gives it, and a text as many as its
/// parts.
pub proof fn bytes_add_up(a: Seq<char>, b: Seq<char>)
    ensures
        text::byte_len(a + b) == text::byte_len(a) + text::byte_len(b),
        a.len() <= text::byte_len(a) <= 4 * a.len(),
    decreases b.len(), a.len(),
{
    if b.len() == 0 {
        assert(a + b =~= a);
        if a.len() > 0 {
            bytes_add_up(a.drop_last(), b);
        }
    } else {
        bytes_add_up(a, b.drop_last());
        assert((a + b).drop_last() =~= a + b.drop_last());
    }
}

/// A negative number is written as its opposite behind a minus sign.
pub proof fn a_negative_number_has_a_minus_sign(n: int)
    ensures
        n >= 0 ==> text::decimal_int(n) == text::decimal(n as nat),
        n < 0 ==> text::decimal_int(n) == seq!['-'] + text::decimal((-n) as nat),
{
}

/// A character takes as many bytes as its code point needs: one for seven bits, two
/// for eleven, three for sixteen, and else four.
pub proof fn a_character_takes_the_bytes_it_needs(c: char)
    ensures
        text::utf8_width(c) == 1 <==> c as u32 <= 0x7f,
        text::utf8_width(c) == 2 <==> 0x80 <= c as u32 <= 0x7ff,
        text::utf8_width(c) == 3 <==> 0x800 <= c as u32 <= 0xffff,
        text::utf8_width(c) == 4 <==> 0x1_0000 <= c as u32,
{
}

} // verus!
