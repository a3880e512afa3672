//! Unique identifiers.
use vstd::prelude::*;

use crate::text;
use crate::error::joined;
use vstd::string::StringExecFns;

verus! {

/// A 128-bit identifier.
#[derive(Clone, Copy, Debug, PartialEq, Eq, Hash, Structural)]
pub struct Uuid {
    pub bits: u128,
}

/// The namespace of ISO object identifiers, `6ba7b812-9dad-11d1-80b4-00c04fd430c8`.
pub const NAMESPACE_OID: u128 = 0x6ba7_b812_9dad_11d1_80b4_00c0_4fd4_30c8;

/// The hexadecimal digit of value `d`, in lower case.
pub open spec fn hex_digit(d: nat) -> char {
    if d < 10 {
        ((d + 48) as u8) as char
    } else {
        ((d + 87) as u8) as char
    }
}

/// The last `width` hexadecimal digits of `n`.
pub open spec fn hex_digits(n: nat, width: nat) -> Seq<char>
    decreases width,
{
    if width == 0 {
        Seq::empty()
    } else {
        hex_digits(n / 16, (width - 1) as nat).push(hex_digit(n % 16))
    }
}

/// An identifier in its hyphenated form: groups of eight, four, four, four and
/// twelve hexadecimal digits.
pub open spec fn uuid_text(id: Uuid) -> Seq<char> {
    let n = id.bits as nat;
    hex_digits(n / 0x1_0000_0000_0000_0000_0000_0000nat, 8) + "-"@ + hex_digits(
        n / 0x1_0000_0000_0000_0000_0000nat,
        4,
    ) + "-"@ + hex_digits(n / 0x1_0000_0000_0000_0000nat, 4) + "-"@ + hex_digits(
        n / 0x1_0000_0000_0000nat,
        4,
    ) + "-"@ + hex_digits(n, 12)
}

/// What `uuid::Uuid::new_v5` makes of a namespace and a name.
pub uninterp spec fn uuid_v5(namespace: u128, name: Seq<char>) -> u128;

/// What `uuid::Uuid::parse_str` reads from a text: an identifier, or the
/// message of the error.
pub uninterp spec fn uuid_parsed(text: Seq<char>) -> Result<u128, Seq<char>>;

/// `uuid::Uuid::new_v5`: the version 5 identifier of the name's UTF-8 bytes in
/// the namespace, which depends on the two alone.
#[verifier::external_body]
fn new_v5(namespace: u128, name: &str) -> (r: u128)
    ensures
        r == uuid_v5(namespace, name@),
{
    uuid::Uuid::new_v5(&uuid::Uuid::from_u128(namespace), name.as_bytes()).as_u128()
}

/// `uuid::Uuid::new_v4`: a random identifier. Its version field is four and its
/// variant field binary ten; the other bits are left to chance.
#[verifier::external_body]
fn new_v4() -> (r: u128)
    ensures
        (r / 0x1000_0000_0000_0000_0000u128) % 16 == 4,
        (r / 0x4000_0000_0000_0000u128) % 4 == 2,
{
    uuid::Uuid::new_v4().as_u128()
}

/// `uuid::Uuid` as `Display` writes it: the hyphenated form in lower case.
#[verifier::external_body]
fn hyphenated(bits: u128) -> (r: String)
    ensures
        r@ == uuid_text((Uuid { bits })),
{
    uuid::Uuid::from_u128(bits).to_string()
}

/// `uuid::Uuid::parse_str`: the identifier that the text writes, in any of the
/// forms that it accepts, or the message of the error; which, depends on the
/// text alone. The hyphenated form of an identifier is read as that identifier.
#[verifier::external_body]
fn parse_str(text: &str) -> (r: Result<u128, String>)
    ensures
        r is Ok <==> uuid_parsed(text@) is Ok,
        r is Ok ==> r->Ok_0 == uuid_parsed(text@)->Ok_0,
        r is Err ==> r->Err_0@ == uuid_parsed(text@)->Err_0,
        forall|id: Uuid| text@ == #[trigger] uuid_text(id) ==> (r is Ok && r->Ok_0 == id.bits),
{
    match uuid::Uuid::parse_str(text) {
        Ok(id) => Ok(id.as_u128()),
        Err(e) => Err(e.to_string()),
    }
}

/// The identifier has the shape of a random one: its version field is four and
/// its variant field binary ten.
pub open spec fn random_shape(id: Uuid) -> bool {
    &&& (id.bits / 0x1000_0000_0000_0000_0000u128) % 16 == 4
    &&& (id.bits / 0x4000_0000_0000_0000u128) % 4 == 2
}

impl Uuid {
    /// A random identifier.
    pub fn random() -> (r: Uuid)
        ensures
            random_shape(r),
    {
        Uuid { bits: new_v4() }
    }

    /// The hyphenated form.
    pub fn text(&self) -> (r: String)
        ensures
            r@ == uuid_text(*self),
    {
        hyphenated(self.bits)
    }

    /// The identifier that `text` writes, or the message of the error.
    pub fn parse(text: &str) -> (r: Result<Uuid, String>)
        ensures
            r is Ok <==> uuid_parsed(text@) is Ok,
            r is Ok ==> r->Ok_0.bits == uuid_parsed(text@)->Ok_0,
            r is Err ==> r->Err_0@ == uuid_parsed(text@)->Err_0,
            forall|id: Uuid| text@ == #[trigger] uuid_text(id) ==> r is Ok && r->Ok_0 == id,
    {
        match parse_str(text) {
            Ok(bits) => Ok(Uuid { bits }),
            Err(e) => Err(e),
        }
    }
}

/// The text from which the identifier of a channel is derived.
pub open spec fn channel_seed(kind: Seq<char>, label: Seq<char>) -> Seq<char> {
    kind + ":"@ + label
}

/// The identifier of the channel with this kind and label, the same in every
/// process: version 5 of `kind:label`, neither trimmed nor lower-cased, in the
/// namespace of object identifiers.
pub fn stable_channel_id(kind: &str, label: &str) -> (r: Uuid)
    ensures
        r.bits == uuid_v5(NAMESPACE_OID, channel_seed(kind@, label@)),
{
    let mut seed = joined(kind, ":");
    seed.append(label);
    Uuid { bits: new_v5(NAMESPACE_OID, seed.as_str()) }
}

/// Channels of different kinds, or with different labels, get their identifiers
/// from different texts, where no kind holds a colon.
pub proof fn seeds_tell_channels_apart(
    kind_a: Seq<char>,
    label_a: Seq<char>,
    kind_b: Seq<char>,
    label_b: Seq<char>,
)
    requires
        !kind_a.contains(':'),
        !kind_b.contains(':'),
        channel_seed(kind_a, label_a) == channel_seed(kind_b, label_b),
    ensures
        kind_a == kind_b,
        label_a == label_b,
{
    reveal_strlit(":");
    let a = channel_seed(kind_a, label_a);
    let b = channel_seed(kind_b, label_b);
    assert(a[kind_a.len() as int] == ':');
    assert(b[kind_b.len() as int] == ':');
    if kind_a.len() < kind_b.len() {
        assert(kind_b[kind_a.len() as int] == b[kind_a.len() as int]);
        assert(kind_b.contains(':'));
    }
    if kind_b.len() < kind_a.len() {
        assert(kind_a[kind_b.len() as int] == a[kind_b.len() as int]);
        assert(kind_a.contains(':'));
    }
    let n = kind_a.len() as int;
    assert(a.take(n) =~= kind_a);
    assert(b.take(n) =~= kind_b);
    assert(a.skip(n + 1) =~= label_a);
    assert(b.skip(n + 1) =~= label_b);
}

/// Sixteen to the power of `width`.
spec fn sixteens(width: nat) -> nat
    decreases width,
{
    if width == 0 {
        1
    } else {
        16 * sixteens((width - 1) as nat)
    }
}

/// Digits tell a number up to sixteen to their number.
proof fn lemma_hex_digits(a: nat, b: nat, width: nat)
    requires
        hex_digits(a, width) == hex_digits(b, width),
    ensures
        sixteens(width) > 0,
        a % sixteens(width) == b % sixteens(width),
    decreases width,
{
    if width > 0 {
        let w = (width - 1) as nat;
        let x = hex_digits(a, width);
        let y = hex_digits(b, width);
        assert(x.drop_last() =~= hex_digits(a / 16, w));
        assert(y.drop_last() =~= hex_digits(b / 16, w));
        lemma_hex_digits(a / 16, b / 16, w);
        assert(x.last() == y.last());
        assert(hex_digit(a % 16) as u32 == hex_digit(b % 16) as u32);
        assert(a % 16 == b % 16);
        let p = sixteens(w);
        vstd::arithmetic::div_mod::lemma_mod_breakdown(a as int, 16, p as int);
        vstd::arithmetic::div_mod::lemma_mod_breakdown(b as int, 16, p as int);
    }
}

/// The number of digits of a text.
proof fn lemma_hex_len(n: nat, width: nat)
    ensures
        hex_digits(n, width).len() == width,
    decreases width,
{
    if width > 0 {
        lemma_hex_len(n / 16, (width - 1) as nat);
    }
}

/// Two numbers that agree on their digits above a group, and on the group, agree
/// on both together.
proof fn lemma_one_more_group(n: nat, m: nat, low: nat, group: nat)
    requires
        low > 0,
        group > 0,
        n / (low * group) == m / (low * group),
        (n / low) % group == (m / low) % group,
    ensures
        n / low == m / low,
{
    vstd::arithmetic::div_mod::lemma_div_denominator(n as int, low as int, group as int);
    vstd::arithmetic::div_mod::lemma_div_denominator(m as int, low as int, group as int);
    vstd::arithmetic::div_mod::lemma_fundamental_div_mod((n / low) as int, group as int);
    vstd::arithmetic::div_mod::lemma_fundamental_div_mod((m / low) as int, group as int);
}

/// The groups of digits of two identifiers with the same text.
proof fn lemma_same_groups(a: Uuid, b: Uuid)
    requires
        uuid_text(a) == uuid_text(b),
    ensures
        ({
            let n = a.bits as nat;
            let m = b.bits as nat;
            let d1 = 0x1_0000_0000_0000_0000_0000_0000nat;
            let d2 = 0x1_0000_0000_0000_0000_0000nat;
            let d3 = 0x1_0000_0000_0000_0000nat;
            let d4 = 0x1_0000_0000_0000nat;
            &&& hex_digits(n / d1, 8) == hex_digits(m / d1, 8)
            &&& hex_digits(n / d2, 4) == hex_digits(m / d2, 4)
            &&& hex_digits(n / d3, 4) == hex_digits(m / d3, 4)
            &&& hex_digits(n / d4, 4) == hex_digits(m / d4, 4)
            &&& hex_digits(n, 12) == hex_digits(m, 12)
        }),
{
    reveal_strlit("-");
    let x = uuid_text(a);
    let y = uuid_text(b);
    let n = a.bits as nat;
    let m = b.bits as nat;
    let d1 = 0x1_0000_0000_0000_0000_0000_0000nat;
    let d2 = 0x1_0000_0000_0000_0000_0000nat;
    let d3 = 0x1_0000_0000_0000_0000nat;
    let d4 = 0x1_0000_0000_0000nat;
    lemma_hex_len(n / d1, 8);
    lemma_hex_len(m / d1, 8);
    lemma_hex_len(n / d2, 4);
    lemma_hex_len(m / d2, 4);
    lemma_hex_len(n / d3, 4);
    lemma_hex_len(m / d3, 4);
    lemma_hex_len(n / d4, 4);
    lemma_hex_len(m / d4, 4);
    lemma_hex_len(n, 12);
    lemma_hex_len(m, 12);
    assert(x.subrange(0, 8) =~= hex_digits(n / d1, 8));
    assert(y.subrange(0, 8) =~= hex_digits(m / d1, 8));
    assert(x.subrange(9, 13) =~= hex_digits(n / d2, 4));
    assert(y.subrange(9, 13) =~= hex_digits(m / d2, 4));
    assert(x.subrange(14, 18) =~= hex_digits(n / d3, 4));
    assert(y.subrange(14, 18) =~= hex_digits(m / d3, 4));
    assert(x.subrange(19, 23) =~= hex_digits(n / d4, 4));
    assert(y.subrange(19, 23) =~= hex_digits(m / d4, 4));
    assert(x.subrange(24, 36) =~= hex_digits(n, 12));
    assert(y.subrange(24, 36) =~= hex_digits(m, 12));
}

/// The powers of sixteen of the groups.
proof fn lemma_group_sizes()
    ensures
        sixteens(4) == 0x1_0000,
        sixteens(8) == 0x1_0000_0000,
        sixteens(12) == 0x1_0000_0000_0000,
{
    reveal_with_fuel(sixteens, 13);
}

/// Different identifiers have different texts.
pub proof fn texts_tell_identifiers_apart(a: Uuid, b: Uuid)
    requires
        uuid_text(a) == uuid_text(b),
    ensures
        a == b,
{
    lemma_same_groups(a, b);
    lemma_group_sizes();
    let n = a.bits as nat;
    let m = b.bits as nat;
    let d1 = 0x1_0000_0000_0000_0000_0000_0000nat;
    let d2 = 0x1_0000_0000_0000_0000_0000nat;
    let d3 = 0x1_0000_0000_0000_0000nat;
    let d4 = 0x1_0000_0000_0000nat;
    lemma_hex_digits(n / d1, m / d1, 8);
    lemma_hex_digits(n / d2, m / d2, 4);
    lemma_hex_digits(n / d3, m / d3, 4);
    lemma_hex_digits(n / d4, m / d4, 4);
    lemma_hex_digits(n, m, 12);
    assert(n / d1 < 0x1_0000_0000 && m / d1 < 0x1_0000_0000);
    assert(n / d1 == m / d1);
    lemma_one_more_group(n, m, d2, 0x1_0000);
    lemma_one_more_group(n, m, d3, 0x1_0000);
    lemma_one_more_group(n, m, d4, 0x1_0000);
    lemma_one_more_group(n, m, 1, d4);
}

} // verus!
