//! Which mails can be taken apart.
//!
//! `mail_parser` counts the bytes of a quoted-printable part down by one too
//! many where next to nothing stands before a soft line break and a boundary.
//! The bytes of a mail tell whether that can come to pass, in the mail itself
//! or in an encoded mail within it, and how deep mails can stand in one another.
use vstd::prelude::*;

use crate::text::to_chars;

verus! {

// ---------------------------------------------------------------------------
// Soft line breaks
// ---------------------------------------------------------------------------

/// White space within a line.
pub open spec fn blank(b: u8) -> bool {
    b == 0x20 || b == 0x09 || b == 0x0c || b == 0x0d
}

/// Neither white space nor an equals sign.
pub open spec fn solid(b: u8) -> bool {
    !blank(b) && b != 0x0a && b != 0x3d
}

/// The line ends at `i`, but for white space, and the next one starts with two
/// dashes.
pub open spec fn dashes_follow(s: Seq<u8>, i: int) -> bool
    decreases s.len() - i,
{
    if 0 <= i < s.len() {
        if blank(s[i]) {
            dashes_follow(s, i + 1)
        } else {
            s[i] == 0x0a && i + 2 < s.len() && s[i + 1] == 0x2d && s[i + 2] == 0x2d
        }
    } else {
        false
    }
}

/// A soft line break that stands before two dashes, and for all that its line
/// shows may be the first thing in its part: no three solid bytes stand before
/// it, which come to two bytes at least, and no other equals sign, with which
/// a part is not quoted-printable at all.
pub open spec fn bare_break(s: Seq<u8>, p: int) -> bool {
    &&& 0 <= p < s.len()
    &&& s[p] == 0x3d
    &&& dashes_follow(s, p + 1)
    &&& !(p >= 1 && s[p - 1] == 0x3d)
    &&& !(p >= 3 && solid(s[p - 3]) && solid(s[p - 2]) && solid(s[p - 1]))
}

// ---------------------------------------------------------------------------
// Mails within mails
// ---------------------------------------------------------------------------

/// The lower case of an ASCII letter; another byte as it is.
pub open spec fn lower_byte(b: u8) -> u8 {
    if 0x41 <= b <= 0x5a {
        (b + 32) as u8
    } else {
        b
    }
}

/// The word stands at `i`, whatever its case.
pub open spec fn word_at(s: Seq<u8>, i: int, word: Seq<char>) -> bool {
    &&& 0 <= i
    &&& i + word.len() <= s.len()
    &&& forall|k: int| 0 <= k < word.len() ==> #[trigger] word[k] == lower_byte(s[i + k]) as char
}

/// A slash or the end of a comment stands before `i`, with nothing but white
/// space, quotes and backslashes between.
pub open spec fn after_slash(s: Seq<u8>, i: int) -> bool
    decreases i,
{
    if 0 < i <= s.len() {
        let b = s[i - 1];
        b == 0x2f || b == 0x29 || ((blank(b) || b == 0x22 || b == 0x5c) && after_slash(s, i - 1))
    } else {
        false
    }
}

/// A colon stands before `i`, with nothing but white space between.
pub open spec fn after_colon(s: Seq<u8>, i: int) -> bool
    decreases i,
{
    if 0 < i <= s.len() {
        let b = s[i - 1];
        b == 0x3a || ((blank(b) || b == 0x0a) && after_colon(s, i - 1))
    } else {
        false
    }
}

/// What stands at `i` can be the subtype of a mail within the mail.
pub open spec fn names_mail(s: Seq<u8>, i: int) -> bool {
    (word_at(s, i, "rfc822"@) || word_at(s, i, "global"@)) && after_slash(s, i)
}

/// What stands at `i` can be the subtype of a digest, whose parts are mails
/// unless they say otherwise.
pub open spec fn names_digest(s: Seq<u8>, i: int) -> bool {
    word_at(s, i, "digest"@) && after_slash(s, i)
}

/// What stands at `i` can be the name of an encoding, itself in an encoded word
/// perhaps.
pub open spec fn names_encoding(s: Seq<u8>, i: int) -> bool {
    word_at(s, i, "base64"@) || word_at(s, i, "quoted-printable"@) || (word_at(s, i, "=?"@)
        && after_colon(s, i))
}

/// An empty line begins at the end of the line that ends at `k`. It ends the
/// headers of a part.
pub open spec fn empty_line_at(s: Seq<u8>, k: int) -> bool {
    &&& 0 <= k
    &&& k + 1 < s.len()
    &&& s[k] == 0x0a
    &&& s[k + 1] == 0x0a || (s[k + 1] == 0x0d && k + 2 < s.len() && s[k + 2] == 0x0a)
}

/// No empty line stands between `i` and `j`.
pub open spec fn unbroken(s: Seq<u8>, i: int, j: int) -> bool {
    forall|k: int| i <= k < j ==> !#[trigger] empty_line_at(s, k)
}

/// The headers of one part can name both a mail within the mail, at `i`, and an
/// encoding of it, at `j`.
pub open spec fn encoded_mail(s: Seq<u8>, i: int, j: int) -> bool {
    names_mail(s, i) && names_encoding(s, j) && unbroken(s, i, j) && unbroken(s, j, i)
}

/// How many places before `i` can name a mail within the mail, or a digest.
pub open spec fn nested_before(s: Seq<u8>, i: int) -> nat
    decreases i,
{
    if i <= 0 {
        0
    } else {
        nested_before(s, i - 1) + if names_mail(s, i - 1) || names_digest(s, i - 1) {
            1nat
        } else {
            0nat
        }
    }
}

/// The most mails within mails that are taken apart. Each stands within the one
/// before it, perhaps, and is let go of from within it.
pub const MOST_NESTED: usize = 100;

/// The mail can be taken apart: it has no bare soft break before dashes, no mail
/// within it is encoded, and there are not too many of those.
pub open spec fn separable(s: Seq<u8>) -> bool {
    &&& nested_before(s, s.len() as int) <= MOST_NESTED
    &&& forall|p: int| !#[trigger] bare_break(s, p)
    &&& forall|i: int, j: int| !#[trigger] encoded_mail(s, i, j)
    &&& forall|i: int, j: int| !(#[trigger] names_digest(s, i) && #[trigger] names_encoding(s, j))
}

// ---------------------------------------------------------------------------
// Telling them apart
// ---------------------------------------------------------------------------

fn is_blank_byte(b: u8) -> (r: bool)
    ensures
        r == blank(b),
{
    b == 0x20 || b == 0x09 || b == 0x0c || b == 0x0d
}

fn is_solid(b: u8) -> (r: bool)
    ensures
        r == solid(b),
{
    !is_blank_byte(b) && b != 0x0a && b != 0x3d
}

fn has_dashes_after(s: &[u8], from: usize) -> (r: bool)
    requires
        from <= s@.len(),
    ensures
        r == dashes_follow(s@, from as int),
{
    let mut i: usize = from;
    while i < s.len() && is_blank_byte(s[i])
        invariant
            i <= s@.len(),
            dashes_follow(s@, from as int) == dashes_follow(s@, i as int),
        decreases s@.len() - i,
    {
        i = i + 1;
    }
    i < s.len() && s[i] == 0x0a && s.len() - i > 2 && s[i + 1] == 0x2d && s[i + 2] == 0x2d
}

fn is_bare_break(s: &[u8], p: usize) -> (r: bool)
    requires
        p < s@.len(),
    ensures
        r == bare_break(s@, p as int),
{
    s[p] == 0x3d && !(p >= 1 && s[p - 1] == 0x3d) && !(p >= 3 && is_solid(s[p - 3]) && is_solid(
        s[p - 2],
    ) && is_solid(s[p - 1])) && has_dashes_after(s, p + 1)
}

fn has_word(s: &[u8], i: usize, word: &Vec<char>) -> (r: bool)
    requires
        i <= s@.len(),
    ensures
        r == word_at(s@, i as int, word@),
{
    let n: usize = s.len();
    if n - i < word.len() {
        return false;
    }
    for k in 0..word.len()
        invariant
            n == s@.len(),
            i + word@.len() <= n,
            forall|j: int| 0 <= j < k ==> #[trigger] word@[j] == lower_byte(s@[i + j]) as char,
    {
        let b = s[i + k];
        let low: u8 = if 0x41 <= b && b <= 0x5a {
            b + 32
        } else {
            b
        };
        if word[k] != low as char {
            assert(word@[k as int] != lower_byte(s@[i + k]) as char);
            return false;
        }
    }
    true
}

fn is_after_slash(s: &[u8], at: usize) -> (r: bool)
    requires
        at <= s@.len(),
    ensures
        r == after_slash(s@, at as int),
{
    let mut i: usize = at;
    while i > 0 && (is_blank_byte(s[i - 1]) || s[i - 1] == 0x22 || s[i - 1] == 0x5c)
        invariant
            i <= s@.len(),
            after_slash(s@, at as int) == after_slash(s@, i as int),
        decreases i,
    {
        i = i - 1;
    }
    i > 0 && (s[i - 1] == 0x2f || s[i - 1] == 0x29)
}

fn is_after_colon(s: &[u8], at: usize) -> (r: bool)
    requires
        at <= s@.len(),
    ensures
        r == after_colon(s@, at as int),
{
    let mut i: usize = at;
    while i > 0 && (is_blank_byte(s[i - 1]) || s[i - 1] == 0x0a)
        invariant
            i <= s@.len(),
            after_colon(s@, at as int) == after_colon(s@, i as int),
        decreases i,
    {
        i = i - 1;
    }
    i > 0 && s[i - 1] == 0x3a
}

fn has_empty_line(s: &[u8], k: usize) -> (r: bool)
    requires
        k < s@.len(),
    ensures
        r == empty_line_at(s@, k as int),
{
    s[k] == 0x0a && s.len() - k > 1 && (s[k + 1] == 0x0a || (s[k + 1] == 0x0d && s.len() - k > 2
        && s[k + 2] == 0x0a))
}

/// The words that the headers of a part are searched for.
struct Words {
    rfc822: Vec<char>,
    global: Vec<char>,
    digest: Vec<char>,
    base64: Vec<char>,
    quoted: Vec<char>,
    encoded: Vec<char>,
}

impl Words {
    spec fn known(&self) -> bool {
        &&& self.rfc822@ == "rfc822"@
        &&& self.global@ == "global"@
        &&& self.digest@ == "digest"@
        &&& self.base64@ == "base64"@
        &&& self.quoted@ == "quoted-printable"@
        &&& self.encoded@ == "=?"@
    }

    fn new() -> (r: Words)
        ensures
            r.known(),
    {
        Words {
            rfc822: to_chars("rfc822"),
            global: to_chars("global"),
            digest: to_chars("digest"),
            base64: to_chars("base64"),
            quoted: to_chars("quoted-printable"),
            encoded: to_chars("=?"),
        }
    }

    fn mail(&self, s: &[u8], i: usize) -> (r: bool)
        requires
            self.known(),
            i <= s@.len(),
        ensures
            r == names_mail(s@, i as int),
    {
        (has_word(s, i, &self.rfc822) || has_word(s, i, &self.global)) && is_after_slash(s, i)
    }

    fn names_digest(&self, s: &[u8], i: usize) -> (r: bool)
        requires
            self.known(),
            i <= s@.len(),
        ensures
            r == names_digest(s@, i as int),
    {
        has_word(s, i, &self.digest) && is_after_slash(s, i)
    }

    fn encoding(&self, s: &[u8], i: usize) -> (r: bool)
        requires
            self.known(),
            i <= s@.len(),
        ensures
            r == names_encoding(s@, i as int),
    {
        has_word(s, i, &self.base64) || has_word(s, i, &self.quoted) || (has_word(
            s,
            i,
            &self.encoded,
        ) && is_after_colon(s, i))
    }
}

/// What is searched for stands within the mail.
proof fn lemma_names_within(s: Seq<u8>, i: int)
    ensures
        names_mail(s, i) || names_digest(s, i) || names_encoding(s, i) ==> 0 <= i < s.len(),
{
    reveal_strlit("rfc822");
    reveal_strlit("global");
    reveal_strlit("digest");
    reveal_strlit("base64");
    reveal_strlit("quoted-printable");
    reveal_strlit("=?");
}

/// Whether the mail can be taken apart.
pub fn is_separable(s: &[u8]) -> (r: bool)
    ensures
        r == separable(s@),
{
    let words = Words::new();
    // what the headers so far name, and what the whole mail so far names
    let mut mail: bool = false;
    let mut encoding: bool = false;
    let mut digest: bool = false;
    let mut encodings: bool = false;
    let mut nested: usize = 0;
    for i in 0..s.len()
        invariant
            words.known(),
            forall|p: int| 0 <= p < i ==> !#[trigger] bare_break(s@, p),
            mail ==> exists|k: int|
                0 <= k < i && #[trigger] names_mail(s@, k) && unbroken(s@, k, i as int),
            !mail ==> forall|k: int|
                0 <= k < i && #[trigger] names_mail(s@, k) ==> !unbroken(s@, k, i as int),
            encoding ==> exists|k: int|
                0 <= k < i && #[trigger] names_encoding(s@, k) && unbroken(s@, k, i as int),
            !encoding ==> forall|k: int|
                0 <= k < i && #[trigger] names_encoding(s@, k) ==> !unbroken(s@, k, i as int),
            digest <==> exists|k: int| 0 <= k < i && #[trigger] names_digest(s@, k),
            encodings <==> exists|k: int| 0 <= k < i && #[trigger] names_encoding(s@, k),
            forall|j: int, k: int|
                0 <= j < i && 0 <= k < i ==> !#[trigger] encoded_mail(s@, j, k),
            !(digest && encodings),
            nested == nested_before(s@, i as int),
            nested <= i,
    {
        let ghost at = i as int;
        if is_bare_break(s, i) {
            return false;
        }
        let here = words.mail(s, i);
        let digest_here = words.names_digest(s, i);
        if here {
            mail = true;
        }
        if digest_here {
            digest = true;
        }
        if here || digest_here {
            nested = nested + 1;
        }
        if words.encoding(s, i) {
            encoding = true;
            encodings = true;
        }
        if mail && encoding {
            proof {
                let j = choose|j: int|
                    0 <= j <= at && #[trigger] names_mail(s@, j) && unbroken(s@, j, at);
                let k = choose|k: int|
                    0 <= k <= at && #[trigger] names_encoding(s@, k) && unbroken(s@, k, at);
                assert(names_mail(s@, j) && unbroken(s@, j, at)) by {
                    if names_mail(s@, at) {
                        assert(unbroken(s@, at, at));
                    }
                }
                assert(names_encoding(s@, k) && unbroken(s@, k, at)) by {
                    if names_encoding(s@, at) {
                        assert(unbroken(s@, at, at));
                    }
                }
                assert(encoded_mail(s@, j, k));
            }
            return false;
        }
        if digest && encodings {
            proof {
                let j = choose|j: int| 0 <= j <= at && #[trigger] names_digest(s@, j);
                let k = choose|k: int| 0 <= k <= at && #[trigger] names_encoding(s@, k);
                assert(names_digest(s@, j) && names_encoding(s@, k));
            }
            return false;
        }
        proof {
            assert forall|j: int, k: int| 0 <= j <= at && 0 <= k <= at implies !#[trigger] encoded_mail(
                s@,
                j,
                k,
            ) by {
                if encoded_mail(s@, j, k) {
                    assert(j == at || k == at);
                    assert(unbroken(s@, j, at) && unbroken(s@, k, at));
                }
            }
        }
        let empty = has_empty_line(s, i);
        if empty {
            mail = false;
            encoding = false;
            proof {
                assert forall|k: int| 0 <= k <= at implies !#[trigger] unbroken(s@, k, at + 1) by {
                    assert(empty_line_at(s@, at));
                }
            }
        } else {
            proof {
                assert forall|k: int| 0 <= k <= at implies #[trigger] unbroken(s@, k, at + 1)
                    == unbroken(s@, k, at) by {
                    if unbroken(s@, k, at) {
                        assert forall|x: int| k <= x < at + 1 implies !#[trigger] empty_line_at(
                            s@,
                            x,
                        ) by {
                        }
                    } else {
                        let x = choose|x: int| k <= x < at && #[trigger] empty_line_at(s@, x);
                        assert(empty_line_at(s@, x));
                    }
                }
                assert(unbroken(s@, at, at));
            }
        }
    }
    proof {
        assert forall|j: int, k: int| !#[trigger] encoded_mail(s@, j, k) by {
            lemma_names_within(s@, j);
            lemma_names_within(s@, k);
        }
        assert forall|j: int, k: int|
            !(#[trigger] names_digest(s@, j) && #[trigger] names_encoding(s@, k)) by {
            lemma_names_within(s@, j);
            lemma_names_within(s@, k);
        }
    }
    nested <= MOST_NESTED
}

} // verus!
