//! Character-level text operations, each stated over the sequence of characters
//! that a string holds.
use vstd::prelude::*;
use vstd::slice::slice_subrange;
use vstd::string::StringExecFns;

verus! {

/// Standard `String::push`: appends one character at the end of the string and
/// changes nothing else.
pub assume_specification[ String::push ](s: &mut String, c: char)
    ensures
        final(s)@ == old(s)@.push(c),
;

// ---------------------------------------------------------------------------
// Character classes
// ---------------------------------------------------------------------------

/// The characters that Unicode gives the `White_Space` property.
pub open spec fn white_space(c: char) -> bool {
    let v = c as u32;
    ||| 0x9 <= v <= 0xD
    ||| v == 0x20
    ||| v == 0x85
    ||| v == 0xA0
    ||| v == 0x1680
    ||| 0x2000 <= v <= 0x200A
    ||| v == 0x2028
    ||| v == 0x2029
    ||| v == 0x202F
    ||| v == 0x205F
    ||| v == 0x3000
}

/// Whether `c` is white space.
pub fn is_white_space(c: char) -> (b: bool)
    ensures
        b == white_space(c),
{
    let v: u32 = c as u32;
    (0x9 <= v && v <= 0xD) || v == 0x20 || v == 0x85 || v == 0xA0 || v == 0x1680
        || (0x2000 <= v && v <= 0x200A) || v == 0x2028 || v == 0x2029 || v == 0x202F
        || v == 0x205F || v == 0x3000
}

/// An ASCII capital letter as its small letter, every other character as itself.
pub open spec fn ascii_lower(c: char) -> char {
    if 'A' <= c <= 'Z' {
        ((c as u32 + 32) as u32) as char
    } else {
        c
    }
}

/// `s` with every ASCII capital letter made small.
pub open spec fn ascii_lowercase(s: Seq<char>) -> Seq<char> {
    s.map_values(|c: char| ascii_lower(c))
}

/// The small form of an ASCII capital letter, or the character itself.
pub fn char_ascii_lower(c: char) -> (r: char)
    ensures
        r == ascii_lower(c),
{
    if 'A' <= c && c <= 'Z' {
        let low: u8 = c as u8 + 32;
        low as char
    } else {
        c
    }
}

// ---------------------------------------------------------------------------
// Strings and their characters
// ---------------------------------------------------------------------------

/// The characters of `s`, in order.
pub fn to_chars(s: &str) -> (r: Vec<char>)
    ensures
        r@ == s@,
{
    let mut r: Vec<char> = Vec::new();
    for c in it: s.chars()
        invariant
            r@ == s@.take(it.index()),
            it.seq() == s@,
    {
        proof {
            assert(s@.take(it.index() + 1) =~= s@.take(it.index()).push(s@[it.index()]));
        }
        r.push(c);
    }
    proof {
        assert(s@.take(s@.len() as int) =~= s@);
    }
    r
}

/// A `String` of the characters of `v`.
pub fn from_chars(v: &[char]) -> (r: String)
    ensures
        r@ == v@,
{
    let mut r = String::new();
    for i in 0..v.len()
        invariant
            r@ == v@.take(i as int),
    {
        proof {
            assert(v@.take(i as int + 1) =~= v@.take(i as int).push(v@[i as int]));
        }
        r.push(v[i]);
    }
    proof {
        assert(v@.take(v@.len() as int) =~= v@);
    }
    r
}

/// Whether two character slices hold the same characters.
pub fn chars_eq(a: &[char], b: &[char]) -> (r: bool)
    ensures
        r == (a@ == b@),
{
    if a.len() != b.len() {
        return false;
    }
    let mut i: usize = 0;
    while i < a.len()
        invariant
            i <= a.len(),
            a@.len() == b@.len(),
            forall|k: int| 0 <= k < i ==> a@[k] == b@[k],
        decreases a.len() - i,
    {
        if a[i] != b[i] {
            return false;
        }
        i += 1;
    }
    proof {
        assert(a@ =~= b@);
    }
    true
}

/// Whether two strings hold the same characters.
pub fn str_eq(a: &str, b: &str) -> (r: bool)
    ensures
        r == (a@ == b@),
{
    let x = to_chars(a);
    let y = to_chars(b);
    chars_eq(x.as_slice(), y.as_slice())
}

/// A copy of an optional string.
pub fn copy_option(o: &Option<String>) -> (r: Option<String>)
    ensures
        r == *o,
{
    match o {
        Some(s) => Some(s.clone()),
        None => None,
    }
}

/// The text of an optional string, the empty text for `None`.
pub open spec fn text_or_empty(o: Option<String>) -> Seq<char> {
    match o {
        Some(s) => s@,
        None => Seq::empty(),
    }
}

/// A copy of the string, or an empty string for `None`.
pub fn copy_or_empty(o: &Option<String>) -> (r: String)
    ensures
        r@ == text_or_empty(*o),
{
    match o {
        Some(s) => s.clone(),
        None => String::new(),
    }
}

// ---------------------------------------------------------------------------
// White space at the ends
// ---------------------------------------------------------------------------

/// Every character of `s` is white space.
pub open spec fn blank(s: Seq<char>) -> bool {
    forall|i: int| 0 <= i < s.len() ==> white_space(#[trigger] s[i])
}

/// The index of the first character that is not white space; the length if
/// there is none.
pub open spec fn first_visible(s: Seq<char>) -> int
    decreases s.len(),
{
    if s.len() == 0 || !white_space(s[0]) {
        0
    } else {
        1 + first_visible(s.drop_first())
    }
}

/// One past the index of the last character that is not white space; zero if
/// there is none.
pub open spec fn visible_end(s: Seq<char>) -> int
    decreases s.len(),
{
    if s.len() == 0 {
        0
    } else if !white_space(s.last()) {
        s.len() as int
    } else {
        visible_end(s.drop_last())
    }
}

/// `s` without the white space at its start.
pub open spec fn trim_start(s: Seq<char>) -> Seq<char> {
    s.skip(first_visible(s))
}

/// `s` without the white space at its end.
pub open spec fn trim_end(s: Seq<char>) -> Seq<char> {
    s.take(visible_end(s))
}

/// `s` without the white space at either end.
pub open spec fn trim(s: Seq<char>) -> Seq<char> {
    trim_end(trim_start(s))
}

/// `first_visible` is the one index with white space before it and something
/// visible at it.
pub proof fn lemma_first_visible(s: Seq<char>, n: int)
    requires
        0 <= n <= s.len(),
        forall|i: int| 0 <= i < n ==> white_space(#[trigger] s[i]),
        n < s.len() ==> !white_space(s[n]),
    ensures
        first_visible(s) == n,
    decreases s.len(),
{
    if s.len() > 0 && white_space(s[0]) {
        assert(n > 0);
        let t = s.drop_first();
        assert forall|i: int| 0 <= i < n - 1 implies white_space(#[trigger] t[i]) by {
            assert(t[i] == s[i + 1]);
        }
        if n < s.len() {
            assert(t[n - 1] == s[n]);
        }
        lemma_first_visible(t, n - 1);
    }
}

/// `visible_end` is the one index with white space from it on and something
/// visible just before it.
pub proof fn lemma_visible_end(s: Seq<char>, n: int)
    requires
        0 <= n <= s.len(),
        forall|i: int| n <= i < s.len() ==> white_space(#[trigger] s[i]),
        n > 0 ==> !white_space(s[n - 1]),
    ensures
        visible_end(s) == n,
    decreases s.len(),
{
    if s.len() > 0 && white_space(s.last()) {
        assert(s.last() == s[s.len() - 1]);
        assert(n < s.len());
        let t = s.drop_last();
        assert forall|i: int| n <= i < t.len() implies white_space(#[trigger] t[i]) by {
            assert(t[i] == s[i]);
        }
        if n > 0 {
            assert(t[n - 1] == s[n - 1]);
        }
        lemma_visible_end(t, n);
    } else if s.len() > 0 {
        assert(s.last() == s[s.len() - 1]);
    }
}

/// The bounds of `first_visible` and what lies on either side of it.
pub proof fn lemma_first_visible_props(s: Seq<char>)
    ensures
        0 <= first_visible(s) <= s.len(),
        forall|i: int| 0 <= i < first_visible(s) ==> white_space(#[trigger] s[i]),
        first_visible(s) < s.len() ==> !white_space(s[first_visible(s)]),
    decreases s.len(),
{
    if s.len() > 0 && white_space(s[0]) {
        let t = s.drop_first();
        lemma_first_visible_props(t);
        assert forall|i: int| 0 <= i < first_visible(s) implies white_space(#[trigger] s[i]) by {
            if i > 0 {
                assert(t[i - 1] == s[i]);
            }
        }
    }
}

/// The bounds of `visible_end` and what lies on either side of it.
pub proof fn lemma_visible_end_props(s: Seq<char>)
    ensures
        0 <= visible_end(s) <= s.len(),
        forall|i: int| visible_end(s) <= i < s.len() ==> white_space(#[trigger] s[i]),
        visible_end(s) > 0 ==> !white_space(s[visible_end(s) - 1]),
    decreases s.len(),
{
    if s.len() > 0 && white_space(s.last()) {
        let t = s.drop_last();
        lemma_visible_end_props(t);
        assert forall|i: int| visible_end(s) <= i < s.len() implies white_space(#[trigger] s[i]) by {
            if i < s.len() - 1 {
                assert(t[i] == s[i]);
            }
        }
        if visible_end(s) > 0 {
            assert(t[visible_end(s) - 1] == s[visible_end(s) - 1]);
        }
    }
}

/// Trimming leaves nothing of a text exactly when the text is blank.
pub proof fn lemma_trim_empty_iff_blank(s: Seq<char>)
    ensures
        trim(s).len() == 0 <==> blank(s),
        trim_start(s).len() == 0 <==> blank(s),
        trim_end(s).len() == 0 <==> blank(s),
{
    lemma_first_visible_props(s);
    lemma_visible_end_props(s);
    let t = trim_start(s);
    lemma_visible_end_props(t);
    if blank(s) {
        assert(first_visible(s) == s.len());
        if visible_end(s) > 0 {
            assert(white_space(s[visible_end(s) - 1]));
        }
    } else {
        let i = choose|i: int| 0 <= i < s.len() && !white_space(#[trigger] s[i]);
        assert(first_visible(s) < s.len());
        assert(t[0] == s[first_visible(s)]);
        assert(visible_end(t) > 0);
    }
}

/// The index of the first visible character.
pub fn find_first_visible(v: &[char]) -> (n: usize)
    ensures
        n == first_visible(v@),
        n <= v@.len(),
{
    let mut n: usize = 0;
    while n < v.len() && is_white_space(v[n])
        invariant
            n <= v.len(),
            forall|i: int| 0 <= i < n ==> white_space(#[trigger] v@[i]),
        decreases v.len() - n,
    {
        n += 1;
    }
    proof {
        lemma_first_visible(v@, n as int);
    }
    n
}

/// One past the index of the last visible character.
pub fn find_visible_end(v: &[char]) -> (n: usize)
    ensures
        n == visible_end(v@),
        n <= v@.len(),
{
    let mut n: usize = v.len();
    while n > 0 && is_white_space(v[n - 1])
        invariant
            n <= v.len(),
            forall|i: int| n <= i < v@.len() ==> white_space(#[trigger] v@[i]),
        decreases n,
    {
        n -= 1;
    }
    proof {
        lemma_visible_end(v@, n as int);
    }
    n
}

/// The part of `v` left when the white space at its start is dropped.
pub fn trim_start_chars(v: &[char]) -> (r: &[char])
    ensures
        r@ == trim_start(v@),
{
    let a: usize = find_first_visible(v);
    slice_subrange(v, a, v.len())
}

/// The part of `v` left when the white space at its end is dropped.
pub fn trim_end_chars(v: &[char]) -> (r: &[char])
    ensures
        r@ == trim_end(v@),
{
    let b: usize = find_visible_end(v);
    slice_subrange(v, 0, b)
}

/// The part of `v` left when the white space at both ends is dropped.
pub fn trim_chars(v: &[char]) -> (r: &[char])
    ensures
        r@ == trim(v@),
{
    trim_end_chars(trim_start_chars(v))
}

/// `s` without the white space at either end.
pub fn trim_str(s: &str) -> (r: String)
    ensures
        r@ == trim(s@),
{
    let v = to_chars(s);
    from_chars(trim_chars(v.as_slice()))
}

/// Whether a character slice holds nothing but white space.
pub fn is_blank_chars(v: &[char]) -> (r: bool)
    ensures
        r == blank(v@),
{
    let n: usize = find_first_visible(v);
    proof {
        lemma_first_visible_props(v@);
    }
    n == v.len()
}

/// Whether `s` holds nothing but white space.
pub fn is_blank(s: &str) -> (r: bool)
    ensures
        r == blank(s@),
{
    let v = to_chars(s);
    is_blank_chars(v.as_slice())
}

// ---------------------------------------------------------------------------
// Prefixes
// ---------------------------------------------------------------------------

/// The first `n` characters of `s`, or all of it when it is shorter.
pub open spec fn excerpt(s: Seq<char>, n: nat) -> Seq<char> {
    if s.len() <= n {
        s
    } else {
        s.take(n as int)
    }
}

/// The first `n` characters of `v`, or all of it when it is shorter.
pub fn excerpt_chars(v: &[char], n: usize) -> (r: &[char])
    ensures
        r@ == excerpt(v@, n as nat),
{
    if v.len() <= n {
        v
    } else {
        slice_subrange(v, 0, n)
    }
}

/// The first `n` characters of `s`, or all of it when it is shorter.
pub fn excerpt_str(s: &str, n: usize) -> (r: String)
    ensures
        r@ == excerpt(s@, n as nat),
{
    let v = to_chars(s);
    from_chars(excerpt_chars(v.as_slice(), n))
}

/// `p` stands in `s` at index `i`.
pub open spec fn occurs_at(s: Seq<char>, p: Seq<char>, i: int) -> bool {
    0 <= i && i + p.len() <= s.len() && s.subrange(i, i + p.len()) == p
}

/// `s` starts with `p`.
pub open spec fn starts_with(s: Seq<char>, p: Seq<char>) -> bool {
    occurs_at(s, p, 0)
}

/// `s` ends with `p`.
pub open spec fn ends_with(s: Seq<char>, p: Seq<char>) -> bool {
    occurs_at(s, p, s.len() - p.len())
}

/// `s` without the prefix `p`, or `s` itself where it does not start with `p`.
pub open spec fn without_prefix(s: Seq<char>, p: Seq<char>) -> Seq<char> {
    if starts_with(s, p) {
        s.skip(p.len() as int)
    } else {
        s
    }
}

/// `s` without the suffix `p`, or `s` itself where it does not end with `p`.
pub open spec fn without_suffix(s: Seq<char>, p: Seq<char>) -> Seq<char> {
    if ends_with(s, p) {
        s.take(s.len() - p.len())
    } else {
        s
    }
}

/// Whether `p` stands in `s` at index `i`.
pub fn occurs_at_chars(s: &[char], p: &[char], i: usize) -> (r: bool)
    ensures
        r == occurs_at(s@, p@, i as int),
{
    if i > s.len() || p.len() > s.len() - i {
        return false;
    }
    chars_eq(slice_subrange(s, i, i + p.len()), p)
}

/// The slice without the prefix `p`.
pub fn strip_prefix_chars<'a>(s: &'a [char], p: &str) -> (r: &'a [char])
    ensures
        r@ == without_prefix(s@, p@),
{
    let q = to_chars(p);
    if occurs_at_chars(s, q.as_slice(), 0) {
        slice_subrange(s, q.len(), s.len())
    } else {
        s
    }
}

/// The slice without the suffix `p`.
pub fn strip_suffix_chars<'a>(s: &'a [char], p: &str) -> (r: &'a [char])
    ensures
        r@ == without_suffix(s@, p@),
{
    let q = to_chars(p);
    if q.len() > s.len() {
        return s;
    }
    if occurs_at_chars(s, q.as_slice(), s.len() - q.len()) {
        slice_subrange(s, 0, s.len() - q.len())
    } else {
        s
    }
}

/// Whether `s` starts with `p`.
pub fn starts_with_chars(s: &[char], p: &str) -> (r: bool)
    ensures
        r == starts_with(s@, p@),
{
    let q = to_chars(p);
    occurs_at_chars(s, q.as_slice(), 0)
}

/// The index of the first `c` in `s`; the length of `s` if there is none.
pub open spec fn first_index(s: Seq<char>, c: char) -> int
    decreases s.len(),
{
    if s.len() == 0 || s[0] == c {
        0
    } else {
        1 + first_index(s.drop_first(), c)
    }
}

/// `first_index` is the one index before which `c` does not occur and at which
/// it does, or the length.
pub proof fn lemma_first_index(s: Seq<char>, c: char, n: int)
    requires
        0 <= n <= s.len(),
        forall|i: int| 0 <= i < n ==> #[trigger] s[i] != c,
        n < s.len() ==> s[n] == c,
    ensures
        first_index(s, c) == n,
    decreases s.len(),
{
    if s.len() > 0 && s[0] != c {
        let t = s.drop_first();
        assert forall|i: int| 0 <= i < n - 1 implies #[trigger] t[i] != c by {
            assert(t[i] == s[i + 1]);
        }
        if n < s.len() {
            assert(n > 0);
            assert(t[n - 1] == s[n]);
        }
        lemma_first_index(t, c, n - 1);
    }
}

/// The bounds of `first_index` and what lies before and at it.
pub proof fn lemma_first_index_props(s: Seq<char>, c: char)
    ensures
        0 <= first_index(s, c) <= s.len(),
        forall|i: int| 0 <= i < first_index(s, c) ==> #[trigger] s[i] != c,
        first_index(s, c) < s.len() ==> s[first_index(s, c)] == c,
    decreases s.len(),
{
    if s.len() > 0 && s[0] != c {
        let t = s.drop_first();
        lemma_first_index_props(t, c);
        assert forall|i: int| 0 <= i < first_index(s, c) implies #[trigger] s[i] != c by {
            if i > 0 {
                assert(t[i - 1] == s[i]);
            }
        }
    }
}

/// The index of the first `c` in `v`, or the length of `v`.
pub fn find_char(v: &[char], c: char) -> (n: usize)
    ensures
        n == first_index(v@, c),
        n <= v@.len(),
{
    let mut n: usize = 0;
    while n < v.len() && v[n] != c
        invariant
            n <= v.len(),
            forall|i: int| 0 <= i < n ==> #[trigger] v@[i] != c,
        decreases v.len() - n,
    {
        n += 1;
    }
    proof {
        lemma_first_index(v@, c, n as int);
    }
    n
}

/// The index of the first white space in `s`; the length of `s` if there is
/// none.
pub open spec fn first_white_space(s: Seq<char>) -> int
    decreases s.len(),
{
    if s.len() == 0 || white_space(s[0]) {
        0
    } else {
        1 + first_white_space(s.drop_first())
    }
}

/// The index of the first white space in `v`, or the length of `v`.
pub fn find_white_space(v: &[char]) -> (n: usize)
    ensures
        n == first_white_space(v@),
        n <= v@.len(),
{
    let mut n: usize = 0;
    proof {
        assert(v@.skip(0) =~= v@);
    }
    while n < v.len() && !is_white_space(v[n])
        invariant
            n <= v@.len(),
            first_white_space(v@) == n + first_white_space(v@.skip(n as int)),
        decreases v@.len() - n,
    {
        proof {
            assert(v@.skip(n as int).drop_first() =~= v@.skip(n + 1));
        }
        n += 1;
    }
    n
}

/// `s` with every ASCII capital letter made small.
pub fn ascii_lowercase_chars(v: &[char]) -> (r: Vec<char>)
    ensures
        r@ == ascii_lowercase(v@),
{
    let mut r: Vec<char> = Vec::new();
    for i in 0..v.len()
        invariant
            r@ == ascii_lowercase(v@.take(i as int)),
    {
        r.push(char_ascii_lower(v[i]));
        proof {
            assert(ascii_lowercase(v@.take(i as int + 1)) =~= ascii_lowercase(
                v@.take(i as int),
            ).push(ascii_lower(v@[i as int])));
        }
    }
    proof {
        assert(v@.take(v@.len() as int) =~= v@);
    }
    r
}

// ---------------------------------------------------------------------------
// Numbers
// ---------------------------------------------------------------------------

/// The decimal digit of value `d`.
pub open spec fn digit(d: nat) -> char {
    ((d + 48) as u8) as char
}

/// `n` in decimal, without leading zeros.
pub open spec fn decimal(n: nat) -> Seq<char>
    decreases n,
{
    if n < 10 {
        seq![digit(n)]
    } else {
        decimal(n / 10).push(digit(n % 10))
    }
}

/// `n` in decimal, with a minus sign where it is negative.
pub open spec fn decimal_int(n: int) -> Seq<char> {
    if n < 0 {
        seq!['-'] + decimal((-n) as nat)
    } else {
        decimal(n as nat)
    }
}

/// `n` in decimal.
pub fn decimal_chars(n: u128) -> (r: Vec<char>)
    ensures
        r@ == decimal(n as nat),
    decreases n,
{
    let d: u8 = (n % 10) as u8 + 48;
    if n < 10 {
        let mut r: Vec<char> = Vec::new();
        r.push(d as char);
        proof {
            assert(r@ =~= decimal(n as nat));
        }
        r
    } else {
        let mut r = decimal_chars(n / 10);
        r.push(d as char);
        r
    }
}

/// `n` in decimal.
pub fn decimal_string(n: u128) -> (r: String)
    ensures
        r@ == decimal(n as nat),
{
    let v = decimal_chars(n);
    from_chars(v.as_slice())
}

/// `n` in decimal, with a minus sign where it is negative.
pub fn decimal_i64(n: i64) -> (r: String)
    ensures
        r@ == decimal_int(n as int),
{
    if n < 0 {
        let mut r = String::new();
        r.push('-');
        let magnitude: u128 = (-(n as i128)) as u128;
        r.append(decimal_string(magnitude).as_str());
        proof {
            assert(r@ =~= seq!['-'] + decimal((-(n as int)) as nat));
        }
        r
    } else {
        decimal_string(n as u128)
    }
}

// ---------------------------------------------------------------------------
// Replacement
// ---------------------------------------------------------------------------

/// `s` with every occurrence of `p`, found from left to right without overlap,
/// replaced by `q`. An empty `p` stands before each character and at the end.
pub open spec fn replace_all(s: Seq<char>, p: Seq<char>, q: Seq<char>) -> Seq<char>
    decreases s.len(),
{
    if p.len() == 0 {
        if s.len() == 0 {
            q
        } else {
            q + seq![s[0]] + replace_all(s.drop_first(), p, q)
        }
    } else if occurs_at(s, p, 0) {
        q + replace_all(s.skip(p.len() as int), p, q)
    } else if s.len() == 0 {
        Seq::empty()
    } else {
        seq![s[0]] + replace_all(s.drop_first(), p, q)
    }
}

/// Whether `p` stands in the suffix from `i` is whether it stands at `i`.
pub proof fn lemma_occurs_in_suffix(s: Seq<char>, p: Seq<char>, i: int, j: int)
    requires
        0 <= i <= j <= s.len(),
    ensures
        occurs_at(s.skip(i), p, j - i) == occurs_at(s, p, j),
{
    if j + p.len() <= s.len() {
        assert(s.skip(i).subrange(j - i, j - i + p.len()) =~= s.subrange(j, j + p.len()));
    }
}

/// `s` with every occurrence of `p` replaced by `q`.
pub fn replace_chars(s: &[char], p: &[char], q: &[char]) -> (r: Vec<char>)
    ensures
        r@ == replace_all(s@, p@, q@),
{
    let mut r: Vec<char> = Vec::new();
    let mut i: usize = 0;
    proof {
        assert(s@.skip(0) =~= s@);
        assert(r@ + replace_all(s@.skip(0), p@, q@) =~= replace_all(s@, p@, q@));
    }
    while i < s.len()
        invariant
            i <= s@.len(),
            r@ + replace_all(s@.skip(i as int), p@, q@) == replace_all(s@, p@, q@),
        decreases s@.len() - i,
    {
        let ghost before = r@;
        let ghost rest = s@.skip(i as int);
        proof {
            lemma_occurs_in_suffix(s@, p@, i as int, i as int);
            assert(rest[0] == s@[i as int]);
            assert(rest.drop_first() =~= s@.skip(i + 1));
        }
        if p.len() > 0 && occurs_at_chars(s, p, i) {
            proof {
                assert(rest.skip(p@.len() as int) =~= s@.skip(i + p@.len()));
            }
            append_chars(&mut r, q);
            i += p.len();
            proof {
                assert(r@ + replace_all(s@.skip(i as int), p@, q@) =~= before + replace_all(
                    rest,
                    p@,
                    q@,
                ));
            }
        } else {
            if p.len() == 0 {
                append_chars(&mut r, q);
            }
            r.push(s[i]);
            i += 1;
            proof {
                assert(r@ + replace_all(s@.skip(i as int), p@, q@) =~= before + replace_all(
                    rest,
                    p@,
                    q@,
                ));
            }
        }
    }
    if p.len() == 0 {
        append_chars(&mut r, q);
    }
    proof {
        assert(s@.skip(i as int).len() == 0);
        assert(r@ =~= replace_all(s@, p@, q@));
    }
    r
}

/// Adds the characters of `t` at the end of `v`.
pub fn append_chars(v: &mut Vec<char>, t: &[char])
    ensures
        final(v)@ == old(v)@ + t@,
{
    let mut i: usize = 0;
    let ghost before = v@;
    while i < t.len()
        invariant
            i <= t@.len(),
            v@ == before + t@.take(i as int),
        decreases t@.len() - i,
    {
        v.push(t[i]);
        i += 1;
        proof {
            assert(t@.take(i as int) =~= t@.take(i - 1).push(t@[i - 1]));
            assert(v@ =~= before + t@.take(i as int));
        }
    }
    proof {
        assert(t@.take(i as int) =~= t@);
    }
}

/// Adds the characters of `t` at the end of `v`.
pub fn append_str(v: &mut Vec<char>, t: &str)
    ensures
        final(v)@ == old(v)@ + t@,
{
    let c = to_chars(t);
    append_chars(v, c.as_slice());
}

// ---------------------------------------------------------------------------
// Order by weight
// ---------------------------------------------------------------------------

/// `order` lists the indices of `weights`, each once, the heaviest first; equal
/// weights keep the order of their indices.
pub open spec fn heaviest_first(order: Seq<usize>, weights: Seq<u128>) -> bool {
    &&& order.len() == weights.len()
    &&& forall|i: int| 0 <= i < order.len() ==> (#[trigger] order[i]) < weights.len()
    &&& forall|k: int| 0 <= k < weights.len() ==> #[trigger] order.contains(k as usize)
    &&& forall|i: int, j: int|
        0 <= i < j < order.len() ==> {
            let a = #[trigger] order[i];
            let b = #[trigger] order[j];
            weights[a as int] > weights[b as int] || (weights[a as int] == weights[b as int] && a
                < b)
        }
}

/// There is one such order.
pub proof fn heaviest_first_is_unique(a: Seq<usize>, b: Seq<usize>, weights: Seq<u128>)
    requires
        heaviest_first(a, weights),
        heaviest_first(b, weights),
        weights.len() <= usize::MAX,
    ensures
        a == b,
{
    lemma_same_prefix(a, b, weights, weights.len() as int);
    assert(a =~= b);
}

proof fn lemma_same_prefix(a: Seq<usize>, b: Seq<usize>, weights: Seq<u128>, n: int)
    requires
        heaviest_first(a, weights),
        heaviest_first(b, weights),
        weights.len() <= usize::MAX,
        0 <= n <= weights.len(),
    ensures
        forall|i: int| 0 <= i < n ==> a[i] == b[i],
    decreases n,
{
    if n > 0 {
        lemma_same_prefix(a, b, weights, n - 1);
        let i = n - 1;
        assert(a[i] < weights.len() && b[i] < weights.len());
        assert(b.contains((a[i] as int) as usize));
        assert(a.contains((b[i] as int) as usize));
        let j = choose|j: int| 0 <= j < b.len() && b[j] == a[i];
        let k = choose|k: int| 0 <= k < a.len() && a[k] == b[i];
        if j < i {
            assert(a[j] == b[j]);
        }
        if k < i {
            assert(a[k] == b[k]);
        }
        if j > i && k > i {
            assert(weights[b[i] as int] > weights[b[j] as int] || (weights[b[i] as int]
                == weights[b[j] as int] && b[i] < b[j]));
            assert(weights[a[i] as int] > weights[a[k] as int] || (weights[a[i] as int]
                == weights[a[k] as int] && a[i] < a[k]));
        }
    }
}

/// The indices of `weights`, the heaviest first.
pub fn order_by_weight(weights: &Vec<u128>) -> (order: Vec<usize>)
    ensures
        heaviest_first(order@, weights@),
{
    let mut order: Vec<usize> = Vec::new();
    proof {
        assert(weights@.take(0).len() == 0);
    }
    for n in 0..weights.len()
        invariant
            heaviest_first(order@, weights@.take(n as int)),
    {
        let w: u128 = weights[n];
        let mut p: usize = order.len();
        while p > 0 && weights[order[p - 1]] < w
            invariant
                p <= order@.len(),
                order@.len() == n,
                n < weights@.len(),
                w == weights@[n as int],
                forall|i: int| 0 <= i < order@.len() ==> (#[trigger] order@[i]) < n,
                forall|i: int|
                    p <= i < order@.len() ==> weights@[(#[trigger] order@[i]) as int] < w,
            decreases p,
        {
            p -= 1;
        }
        let ghost before = order@;
        let ghost prefix = weights@.take(n as int);
        order.insert(p, n);
        proof {
            let longer = weights@.take(n + 1);
            assert forall|i: int| 0 <= i < n implies longer[i] == prefix[i] by {}
            assert(longer[n as int] == w);
            assert forall|k: int| 0 <= k < longer.len() implies #[trigger] order@.contains(
                k as usize,
            ) by {
                if k < n {
                    assert(before.contains(k as usize));
                    let i = choose|i: int| 0 <= i < before.len() && before[i] == k as usize;
                    if i < p {
                        assert(order@[i] == k as usize);
                    } else {
                        assert(order@[i + 1] == k as usize);
                    }
                } else {
                    assert(order@[p as int] == n);
                }
            }
            if p > 0 {
                let last = before[p - 1];
                assert(weights@[last as int] >= w);
                assert forall|i: int| 0 <= i < p implies prefix[(#[trigger] before[i]) as int] >= w by {
                    if i < p - 1 {
                        assert(prefix[before[i] as int] >= prefix[before[p - 1] as int]);
                    }
                }
            }
            assert forall|i: int, j: int| 0 <= i < j < order@.len() implies {
                let a = #[trigger] order@[i];
                let b = #[trigger] order@[j];
                longer[a as int] > longer[b as int] || (longer[a as int] == longer[b as int] && a
                    < b)
            } by {
                let i0 = if i < p { i } else { i - 1 };
                let j0 = if j < p { j } else { j - 1 };
                if i != p {
                    assert(order@[i] == before[i0]);
                }
                if j != p {
                    assert(order@[j] == before[j0]);
                }
            }
        }
    }
    proof {
        assert(weights@.take(weights@.len() as int) =~= weights@);
    }
    order
}

// ---------------------------------------------------------------------------
// UTF-8 offsets
// ---------------------------------------------------------------------------

/// The number of bytes that UTF-8 takes for `c`.
pub open spec fn utf8_width(c: char) -> nat {
    let v = c as u32;
    if v < 0x80 {
        1
    } else if v < 0x800 {
        2
    } else if v < 0x10000 {
        3
    } else {
        4
    }
}

/// The number of bytes that UTF-8 takes for `s`.
pub open spec fn byte_len(s: Seq<char>) -> nat
    decreases s.len(),
{
    if s.len() == 0 {
        0
    } else {
        byte_len(s.drop_last()) + utf8_width(s.last())
    }
}

/// The byte offset at which the character of index `i` starts in `s`; for the
/// length of `s`, the offset of its end.
pub open spec fn byte_offset(s: Seq<char>, i: int) -> nat {
    byte_len(s.take(i))
}

/// `b` is the byte offset of a character of `s`, or of its end.
pub open spec fn char_boundary(s: Seq<char>, b: int) -> bool {
    exists|i: int| 0 <= i <= s.len() && #[trigger] byte_offset(s, i) == b
}

/// The index of the character that starts at byte offset `b`.
pub open spec fn char_index(s: Seq<char>, b: int) -> int {
    choose|i: int| 0 <= i <= s.len() && #[trigger] byte_offset(s, i) == b
}

/// One more character adds its width to the offset.
pub proof fn lemma_byte_offset_step(s: Seq<char>, i: int)
    requires
        0 <= i < s.len(),
    ensures
        byte_offset(s, i + 1) == byte_offset(s, i) + utf8_width(s[i]),
{
    assert(s.take(i + 1).drop_last() =~= s.take(i));
}

/// Offsets grow with the index.
pub proof fn lemma_byte_offset_monotonic(s: Seq<char>, i: int, j: int)
    requires
        0 <= i <= j <= s.len(),
    ensures
        byte_offset(s, i) + (j - i) <= byte_offset(s, j),
    decreases j - i,
{
    if i < j {
        lemma_byte_offset_monotonic(s, i, j - 1);
        lemma_byte_offset_step(s, j - 1);
    }
}

/// At most one index has a given byte offset.
pub proof fn lemma_char_index(s: Seq<char>, i: int, b: int)
    requires
        0 <= i <= s.len(),
        byte_offset(s, i) == b,
    ensures
        char_boundary(s, b),
        char_index(s, b) == i,
{
    let k = char_index(s, b);
    assert(0 <= k <= s.len() && byte_offset(s, k) == b);
    if k < i {
        lemma_byte_offset_monotonic(s, k, i);
    }
    if i < k {
        lemma_byte_offset_monotonic(s, i, k);
    }
}

/// The number of bytes that UTF-8 takes for `c`.
pub fn char_width(c: char) -> (w: u128)
    ensures
        w == utf8_width(c),
        1 <= w <= 4,
{
    let v: u32 = c as u32;
    if v < 0x80 {
        1
    } else if v < 0x800 {
        2
    } else if v < 0x10000 {
        3
    } else {
        4
    }
}

/// The byte offset of every character of `v`, and of its end.
pub fn byte_offsets(v: &[char]) -> (r: Vec<u128>)
    ensures
        r@.len() == v@.len() + 1,
        forall|i: int| 0 <= i <= v@.len() ==> #[trigger] r@[i] == byte_offset(v@, i),
{
    let mut r: Vec<u128> = Vec::new();
    let mut b: u128 = 0;
    r.push(b);
    for i in 0..v.len()
        invariant
            r@.len() == i + 1,
            b == byte_offset(v@, i as int),
            b <= 4 * i,
            forall|k: int| 0 <= k <= i ==> #[trigger] r@[k] == byte_offset(v@, k),
    {
        proof {
            lemma_byte_offset_step(v@, i as int);
        }
        b = b + char_width(v[i]);
        r.push(b);
    }
    r
}

/// The number of bytes that UTF-8 takes for the characters of `v`.
pub fn byte_length(v: &[char]) -> (n: u128)
    ensures
        n == byte_len(v@),
{
    let r = byte_offsets(v);
    proof {
        assert(v@.take(v@.len() as int) =~= v@);
    }
    r[v.len()]
}

/// The index of the character of `s` that starts at byte offset `b`, given the
/// offsets of all of them.
pub(crate) fn find_offset(Ghost(s): Ghost<Seq<char>>, offsets: &Vec<u128>, b: u128) -> (r: Option<usize>)
    requires
        offsets@.len() == s.len() + 1,
        forall|i: int| 0 <= i <= s.len() ==> #[trigger] offsets@[i] == byte_offset(s, i),
    ensures
        r is Some <==> char_boundary(s, b as int),
        r is Some ==> r->0 == char_index(s, b as int) && r->0 <= s.len() && byte_offset(
            s,
            r->0 as int,
        ) == b,
{
    let mut i: usize = 0;
    while i < offsets.len()
        invariant
            i <= offsets@.len(),
            offsets@.len() == s.len() + 1,
            forall|k: int| 0 <= k <= s.len() ==> #[trigger] offsets@[k] == byte_offset(s, k),
            forall|k: int| 0 <= k < i ==> #[trigger] byte_offset(s, k) != b,
        decreases offsets@.len() - i,
    {
        proof {
            assert(offsets@[i as int] == byte_offset(s, i as int));
        }
        if offsets[i] == b {
            proof {
                lemma_char_index(s, i as int, b as int);
            }
            return Some(i);
        }
        i += 1;
    }
    None
}

// ---------------------------------------------------------------------------
// Lower case
// ---------------------------------------------------------------------------

/// Every character of `s` is ASCII.
pub open spec fn ascii(s: Seq<char>) -> bool {
    forall|i: int| 0 <= i < s.len() ==> (#[trigger] s[i] as u32) < 0x80
}

/// What `str::to_lowercase` returns for a text.
pub uninterp spec fn lowercase(s: Seq<char>) -> Seq<char>;

/// Standard `str::to_lowercase`: the lower case of the text under Unicode's
/// rules, which depends on the text alone. An ASCII text has only its capital
/// letters changed, each to its small letter.
pub assume_specification[ str::to_lowercase ](s: &str) -> (r: String)
    ensures
        r@ == lowercase(s@),
        ascii(s@) ==> r@ == ascii_lowercase(s@),
;

/// A text in lower case: what `str::to_lowercase` returns for it, which for an
/// ASCII text is the text with its capital letters made small.
pub open spec fn lower_case(s: Seq<char>) -> Seq<char> {
    if ascii(s) {
        ascii_lowercase(s)
    } else {
        lowercase(s)
    }
}

// ---------------------------------------------------------------------------
// Lines
// ---------------------------------------------------------------------------

/// The length of the first line of `s`, its newline counted in.
pub open spec fn first_line_len(s: Seq<char>) -> int {
    let n = first_index(s, '\n');
    if n < s.len() {
        n + 1
    } else {
        n
    }
}

/// A line as it stands in a text, without its newline or carriage return and
/// newline.
pub open spec fn line_text(raw: Seq<char>) -> Seq<char> {
    if raw.len() > 0 && raw.last() == '\n' {
        let l = raw.drop_last();
        if l.len() > 0 && l.last() == '\r' {
            l.drop_last()
        } else {
            l
        }
    } else {
        raw
    }
}

/// The lines of `s`, without what ends them. What follows the last newline is
/// a line where it is not empty.
pub open spec fn lines(s: Seq<char>) -> Seq<Seq<char>>
    decreases s.len(),
{
    if s.len() == 0 {
        Seq::empty()
    } else {
        proof {
            lemma_first_line_len(s);
        }
        seq![line_text(s.take(first_line_len(s)))] + lines(s.skip(first_line_len(s)))
    }
}

/// The first line is never empty but in an empty text.
pub proof fn lemma_first_line_len(s: Seq<char>)
    ensures
        0 <= first_line_len(s) <= s.len(),
        s.len() > 0 ==> first_line_len(s) > 0,
{
    lemma_first_index_props(s, '\n');
}

/// The text of a line that stands in `v` as `raw` does.
pub fn line_text_chars(raw: &[char]) -> (r: &[char])
    ensures
        r@ == line_text(raw@),
{
    let n: usize = raw.len();
    if n > 0 && raw[n - 1] == '\n' {
        if n > 1 && raw[n - 2] == '\r' {
            let r = slice_subrange(raw, 0, n - 2);
            proof {
                assert(r@ =~= line_text(raw@));
            }
            r
        } else {
            let r = slice_subrange(raw, 0, n - 1);
            proof {
                assert(r@ =~= line_text(raw@));
            }
            r
        }
    } else {
        raw
    }
}

/// The length of the first line of `v`, its newline counted in.
pub fn first_line_length(v: &[char]) -> (n: usize)
    ensures
        n == first_line_len(v@),
        n <= v@.len(),
        v@.len() > 0 ==> n > 0,
{
    let n: usize = find_char(v, '\n');
    proof {
        lemma_first_line_len(v@);
    }
    if n < v.len() {
        n + 1
    } else {
        n
    }
}

// ---------------------------------------------------------------------------
// Quoting
// ---------------------------------------------------------------------------

/// What the formatting of a text with `{:?}` gives.
pub uninterp spec fn debug_form(text: Seq<char>) -> Seq<char>;

/// Standard formatting of a `str` with `{:?}`: the text in quotes, with what
/// needs it escaped; it depends on the text alone.
#[verifier::external_body]
pub(crate) fn debug_text(text: &str) -> (r: String)
    ensures
        r@ == debug_form(text@),
{
    format!("{:?}", text)
}

} // verus!
