//! What holds of people, whatever their frontmatter.
use vstd::prelude::*;

use crate::knowledge::people;
use crate::knowledge::people::{AddressText, VaultPerson};
use crate::knowledge::yaml;
use crate::knowledge::yaml::YamlValue;

verus! {

// ---------------------------------------------------------------------------
// Mappings
// ---------------------------------------------------------------------------

proof fn lemma_pair_index(pairs: Seq<(YamlValue, YamlValue)>, key: Seq<char>, from: int, n: int)
    requires
        0 <= from <= n < pairs.len(),
        forall|k: int| from <= k < n ==> !yaml::key_is((#[trigger] pairs[k]).0, key),
        yaml::key_is(pairs[n].0, key),
    ensures
        yaml::pair_index(pairs, key, from) == n,
    decreases n - from,
{
    if from < n {
        lemma_pair_index(pairs, key, from + 1, n);
    }
}

/// A mapping gives the value that stands beside the key, whatever other keys it
/// has.
pub proof fn a_mapping_gives_the_value_of_a_key(
    pairs: Vec<(YamlValue, YamlValue)>,
    key: Seq<char>,
    n: int,
)
    requires
        0 <= n < pairs@.len(),
        pairs@[n].0 matches YamlValue::Str(s) && s@ == key,
        forall|k: int|
            0 <= k < n ==> !((#[trigger] pairs@[k]).0 matches YamlValue::Str(s) && s@ == key),
    ensures
        yaml::yaml_get(YamlValue::Mapping(pairs), key) == Some(pairs@[n].1),
        pairs@[n].1 matches YamlValue::Str(t) ==> yaml::yaml_get_str(
            YamlValue::Mapping(pairs),
            key,
        ) == Some(t@),
{
    assert forall|k: int| 0 <= k < n implies !yaml::key_is((#[trigger] pairs@[k]).0, key) by {}
    lemma_pair_index(pairs@, key, 0, n);
}

/// A mapping without the key gives nothing for it.
pub proof fn a_mapping_gives_nothing_for_another_key(
    pairs: Vec<(YamlValue, YamlValue)>,
    key: Seq<char>,
    from: int,
)
    requires
        0 <= from <= pairs@.len(),
        forall|k: int|
            from <= k < pairs@.len() ==> !((#[trigger] pairs@[k]).0 matches YamlValue::Str(s) && s@
                == key),
    ensures
        yaml::pair_index(pairs@, key, from) == pairs@.len(),
        from == 0 ==> yaml::yaml_get(YamlValue::Mapping(pairs), key) is None,
    decreases pairs@.len() - from,
{
    if from < pairs@.len() {
        assert(!yaml::key_is(pairs@[from].0, key));
        a_mapping_gives_nothing_for_another_key(pairs, key, from + 1);
    }
}

// ---------------------------------------------------------------------------
// Strings in sequences
// ---------------------------------------------------------------------------

/// A string stands among the items.
pub open spec fn listed_in(items: Seq<YamlValue>, s: Seq<char>) -> bool {
    exists|i: int| 0 <= i < items.len() && yaml::yaml_str(#[trigger] items[i]) == Some(s)
}

proof fn lemma_string_items(items: Seq<YamlValue>, s: Seq<char>)
    ensures
        people::string_items(items).contains(s) <==> listed_in(items, s),
    decreases items.len(),
{
    if items.len() > 0 {
        let t = items.drop_last();
        let before = people::string_items(t);
        let all = people::string_items(items);
        lemma_string_items(t, s);
        if all.contains(s) {
            let k = choose|k: int| 0 <= k < all.len() && all[k] == s;
            if k < before.len() {
                assert(before[k] == s);
                let i = choose|i: int| 0 <= i < t.len() && yaml::yaml_str(#[trigger] t[i]) == Some(s);
                assert(items[i] == t[i]);
            } else {
                assert(yaml::yaml_str(items[items.len() - 1]) == Some(s));
            }
        }
        if listed_in(items, s) {
            let i = choose|i: int|
                0 <= i < items.len() && yaml::yaml_str(#[trigger] items[i]) == Some(s);
            if i < t.len() {
                assert(t[i] == items[i]);
                assert(before.contains(s));
                let k = choose|k: int| 0 <= k < before.len() && before[k] == s;
                assert(all[k] == s);
            } else {
                assert(all[all.len() - 1] == s);
            }
        }
    }
}

/// The items of a sequence of strings, in order.
proof fn lemma_all_strings(items: Seq<YamlValue>)
    requires
        forall|i: int| 0 <= i < items.len() ==> yaml::yaml_str(#[trigger] items[i]) is Some,
    ensures
        people::string_items(items).len() == items.len(),
        forall|i: int|
            0 <= i < items.len() ==> #[trigger] people::string_items(items)[i] == yaml::yaml_str(
                items[i],
            )->0,
    decreases items.len(),
{
    if items.len() > 0 {
        let t = items.drop_last();
        assert forall|i: int| 0 <= i < t.len() implies yaml::yaml_str(#[trigger] t[i]) is Some by {
            assert(t[i] == items[i]);
        }
        lemma_all_strings(t);
        assert(yaml::yaml_str(items[items.len() - 1]) is Some);
        assert forall|i: int| 0 <= i < items.len() implies #[trigger] people::string_items(
            items,
        )[i] == yaml::yaml_str(items[i])->0 by {
            if i < t.len() {
                assert(t[i] == items[i]);
                assert(people::string_items(items)[i] == people::string_items(t)[i]);
            }
        }
    }
}

// ---------------------------------------------------------------------------
// Addresses
// ---------------------------------------------------------------------------

/// The field holds the text: it is that string, or a sequence in which that
/// string stands.
pub open spec fn field_holds(v: YamlValue, key: Seq<char>, s: Seq<char>) -> bool {
    match yaml::yaml_get(v, key) {
        Some(YamlValue::Str(t)) => t@ == s,
        Some(YamlValue::Sequence(items)) => listed_in(items@, s),
        _ => false,
    }
}

/// One of the accounts under `email-accounts` has the text as its `address`.
pub open spec fn account_has(v: YamlValue, s: Seq<char>) -> bool {
    &&& yaml::yaml_get(v, "email-accounts"@) is Some
    &&& yaml::yaml_items(yaml::yaml_get(v, "email-accounts"@)->0) is Some
    &&& exists|i: int|
        0 <= i < yaml::yaml_items(yaml::yaml_get(v, "email-accounts"@)->0)->0.len()
            && yaml::yaml_get_str(
            #[trigger] yaml::yaml_items(yaml::yaml_get(v, "email-accounts"@)->0)->0[i],
            "address"@,
        ) == Some(s)
}

proof fn lemma_on_channel(channel: Seq<char>, texts: Seq<Seq<char>>, c: Seq<char>, s: Seq<char>)
    ensures
        people::on_channel(channel, texts).contains((c, s)) <==> c == channel && texts.contains(s),
{
    let all = people::on_channel(channel, texts);
    if all.contains((c, s)) {
        let k = choose|k: int| 0 <= k < all.len() && all[k] == (c, s);
        assert(texts[k] == s);
    }
    if c == channel && texts.contains(s) {
        let k = choose|k: int| 0 <= k < texts.len() && texts[k] == s;
        assert(all[k] == (c, s));
    }
}

proof fn lemma_field(v: YamlValue, key: Seq<char>, channel: Seq<char>, c: Seq<char>, s: Seq<char>)
    ensures
        people::string_or_list(v, key, channel).contains((c, s)) <==> c == channel && field_holds(
            v,
            key,
            s,
        ),
{
    match yaml::yaml_get(v, key) {
        Some(YamlValue::Str(t)) => {
            let one = seq![(channel, t@)];
            assert(one[0] == (channel, t@));
            assert(one.contains((c, s)) <==> (c, s) == (channel, t@));
        },
        Some(YamlValue::Sequence(items)) => {
            lemma_on_channel(channel, people::string_items(items@), c, s);
            lemma_string_items(items@, s);
        },
        _ => {},
    }
}

proof fn lemma_account_items(items: Seq<YamlValue>, s: Seq<char>)
    ensures
        people::account_items(items).contains(s) <==> exists|i: int|
            0 <= i < items.len() && yaml::yaml_get_str(#[trigger] items[i], "address"@) == Some(s),
    decreases items.len(),
{
    if items.len() > 0 {
        let t = items.drop_last();
        let before = people::account_items(t);
        let all = people::account_items(items);
        lemma_account_items(t, s);
        if all.contains(s) {
            let k = choose|k: int| 0 <= k < all.len() && all[k] == s;
            if k < before.len() {
                assert(before[k] == s);
                let i = choose|i: int|
                    0 <= i < t.len() && yaml::yaml_get_str(#[trigger] t[i], "address"@) == Some(s);
                assert(items[i] == t[i]);
            } else {
                assert(yaml::yaml_get_str(items[items.len() - 1], "address"@) == Some(s));
            }
        }
        if exists|i: int|
            0 <= i < items.len() && yaml::yaml_get_str(#[trigger] items[i], "address"@) == Some(s) {
            let i = choose|i: int|
                0 <= i < items.len() && yaml::yaml_get_str(#[trigger] items[i], "address"@) == Some(
                    s,
                );
            if i < t.len() {
                assert(t[i] == items[i]);
                assert(before.contains(s));
                let k = choose|k: int| 0 <= k < before.len() && before[k] == s;
                assert(all[k] == s);
            } else {
                assert(all[all.len() - 1] == s);
            }
        }
    }
}

proof fn lemma_accounts(v: YamlValue, c: Seq<char>, s: Seq<char>)
    ensures
        people::account_addresses(v).contains((c, s)) <==> c == "Email"@ && account_has(v, s),
{
    if let Some(a) = yaml::yaml_get(v, "email-accounts"@) {
        if let Some(items) = yaml::yaml_items(a) {
            lemma_on_channel("Email"@, people::account_items(items), c, s);
            lemma_account_items(items, s);
        }
    }
}

proof fn lemma_contains_sum(a: Seq<AddressText>, b: Seq<AddressText>, x: AddressText)
    ensures
        (a + b).contains(x) <==> a.contains(x) || b.contains(x),
{
    let all = a + b;
    if all.contains(x) {
        let k = choose|k: int| 0 <= k < all.len() && all[k] == x;
        if k < a.len() {
            assert(a[k] == x);
        } else {
            assert(b[k - a.len()] == x);
        }
    }
    if a.contains(x) {
        let k = choose|k: int| 0 <= k < a.len() && a[k] == x;
        assert(all[k] == x);
    }
    if b.contains(x) {
        let k = choose|k: int| 0 <= k < b.len() && b[k] == x;
        assert(all[a.len() + k] == x);
    }
}

/// A person has the addresses that the fields of the frontmatter hold, and no
/// others: mail addresses under `email`, `emails` and as the `address` of each of
/// the `email-accounts`, and those of the other channels under the two fields of
/// each.
pub proof fn addresses_are_those_of_the_fields(
    p: VaultPerson,
    file_path: Seq<char>,
    v: YamlValue,
    channel: Seq<char>,
    s: Seq<char>,
)
    requires
        people::describes(p, file_path, v),
    ensures
        people::address_texts(p.addresses@).contains((channel, s)) <==> {
            ||| channel == "Email"@ && (field_holds(v, "email"@, s) || field_holds(
                v,
                "emails"@,
                s,
            ) || account_has(v, s))
            ||| channel == "Telegram"@ && (field_holds(v, "telegram"@, s) || field_holds(
                v,
                "telegram-username"@,
                s,
            ))
            ||| channel == "WhatsApp"@ && (field_holds(v, "whatsapp"@, s) || field_holds(
                v,
                "phone-whatsapp"@,
                s,
            ))
            ||| channel == "Sms"@ && (field_holds(v, "sms"@, s) || field_holds(
                v,
                "phone-sms"@,
                s,
            ))
            ||| channel == "Teams"@ && (field_holds(v, "teams"@, s) || field_holds(
                v,
                "teams-email"@,
                s,
            ))
        },
        people::address_texts(p.addresses@).no_duplicates(),
{
    people::first_occurrences_are_distinct(people::listed_addresses(v));
    let x = (channel, s);
    let a1 = people::string_or_list(v, "email"@, "Email"@);
    let a2 = people::string_or_list(v, "emails"@, "Email"@);
    let a3 = people::account_addresses(v);
    let a4 = people::string_or_list(v, "telegram"@, "Telegram"@);
    let a5 = people::string_or_list(v, "telegram-username"@, "Telegram"@);
    let a6 = people::string_or_list(v, "whatsapp"@, "WhatsApp"@);
    let a7 = people::string_or_list(v, "phone-whatsapp"@, "WhatsApp"@);
    let a8 = people::string_or_list(v, "sms"@, "Sms"@);
    let a9 = people::string_or_list(v, "phone-sms"@, "Sms"@);
    let a10 = people::string_or_list(v, "teams"@, "Teams"@);
    let a11 = people::string_or_list(v, "teams-email"@, "Teams"@);
    lemma_field(v, "email"@, "Email"@, channel, s);
    lemma_field(v, "emails"@, "Email"@, channel, s);
    lemma_accounts(v, channel, s);
    lemma_field(v, "telegram"@, "Telegram"@, channel, s);
    lemma_field(v, "telegram-username"@, "Telegram"@, channel, s);
    lemma_field(v, "whatsapp"@, "WhatsApp"@, channel, s);
    lemma_field(v, "phone-whatsapp"@, "WhatsApp"@, channel, s);
    lemma_field(v, "sms"@, "Sms"@, channel, s);
    lemma_field(v, "phone-sms"@, "Sms"@, channel, s);
    lemma_field(v, "teams"@, "Teams"@, channel, s);
    lemma_field(v, "teams-email"@, "Teams"@, channel, s);
    lemma_contains_sum(a1, a2, x);
    lemma_contains_sum(a1 + a2, a3, x);
    lemma_contains_sum(a1 + a2 + a3, a4, x);
    lemma_contains_sum(a1 + a2 + a3 + a4, a5, x);
    lemma_contains_sum(a1 + a2 + a3 + a4 + a5, a6, x);
    lemma_contains_sum(a1 + a2 + a3 + a4 + a5 + a6, a7, x);
    lemma_contains_sum(a1 + a2 + a3 + a4 + a5 + a6 + a7, a8, x);
    lemma_contains_sum(a1 + a2 + a3 + a4 + a5 + a6 + a7 + a8, a9, x);
    lemma_contains_sum(a1 + a2 + a3 + a4 + a5 + a6 + a7 + a8 + a9, a10, x);
    lemma_contains_sum(a1 + a2 + a3 + a4 + a5 + a6 + a7 + a8 + a9 + a10, a11, x);
    assert(people::listed_addresses(v) == a1 + a2 + a3 + a4 + a5 + a6 + a7 + a8 + a9 + a10 + a11);
}

/// An account that maps `address` to a string gives that string as a mail
/// address, whatever else it maps.
pub proof fn an_account_gives_its_address(
    p: VaultPerson,
    file_path: Seq<char>,
    v: YamlValue,
    accounts: Vec<YamlValue>,
    i: int,
    pairs: Vec<(YamlValue, YamlValue)>,
    n: int,
)
    requires
        people::describes(p, file_path, v),
        yaml::yaml_get(v, "email-accounts"@) == Some(YamlValue::Sequence(accounts)),
        0 <= i < accounts@.len(),
        accounts@[i] == YamlValue::Mapping(pairs),
        0 <= n < pairs@.len(),
        pairs@[n].0 matches YamlValue::Str(k) && k@ == "address"@,
        forall|m: int|
            0 <= m < n ==> !((#[trigger] pairs@[m]).0 matches YamlValue::Str(k) && k@
                == "address"@),
        pairs@[n].1 is Str,
    ensures
        people::address_texts(p.addresses@).contains(("Email"@, pairs@[n].1->Str_0@)),
{
    let s = pairs@[n].1->Str_0@;
    a_mapping_gives_the_value_of_a_key(pairs, "address"@, n);
    let items = yaml::yaml_items(yaml::yaml_get(v, "email-accounts"@)->0)->0;
    assert(items == accounts@);
    assert(yaml::yaml_get_str(items[i], "address"@) == Some(s));
    assert(account_has(v, s));
    addresses_are_those_of_the_fields(p, file_path, v, "Email"@, s);
}

// ---------------------------------------------------------------------------
// The rest of a person
// ---------------------------------------------------------------------------

/// A frontmatter describes a person where its `name` is a string and its `type`,
/// where it has one, is null or `person`; and the person has the name, the role,
/// the last contact and the tags of the fields that are called so.
pub proof fn a_person_has_what_the_fields_say(p: VaultPerson, file_path: Seq<char>, v: YamlValue)
    requires
        people::describes(p, file_path, v),
    ensures
        p.file_path@ == file_path,
        yaml::yaml_get_str(v, "name"@) == Some(p.name@),
        p.role is Some <==> yaml::yaml_get_str(v, "role"@) is Some,
        p.role matches Some(r) ==> yaml::yaml_get_str(v, "role"@) == Some(r@),
        p.last_contact is Some <==> yaml::yaml_get_str(v, "last-contact"@) is Some,
        p.last_contact matches Some(t) ==> yaml::yaml_get_str(v, "last-contact"@) == Some(t@),
        (yaml::yaml_get(v, "tags"@) matches Some(t) && yaml::yaml_items(t) is Some && forall|i: int|
            0 <= i < yaml::yaml_items(t)->0.len() ==> yaml::yaml_str(
                #[trigger] yaml::yaml_items(t)->0[i],
            ) is Some) ==> {
            let items = yaml::yaml_items(yaml::yaml_get(v, "tags"@)->0)->0;
            &&& p.tags@.len() == items.len()
            &&& forall|i: int|
                0 <= i < items.len() ==> yaml::yaml_str(#[trigger] items[i]) == Some(p.tags@[i]@)
        },
        *p.frontmatter == v,
{
    if let Some(t) = yaml::yaml_get(v, "tags"@) {
        if let Some(items) = yaml::yaml_items(t) {
            if forall|i: int|
                0 <= i < items.len() ==> yaml::yaml_str(#[trigger] items[i]) is Some {
                lemma_all_strings(items);
                let tags = p.tags@.map_values(|s: String| s@);
                assert(tags == people::string_items(items));
                assert forall|i: int| 0 <= i < items.len() implies yaml::yaml_str(
                    #[trigger] items[i],
                ) == Some(p.tags@[i]@) by {
                    assert(tags[i] == p.tags@[i]@);
                }
            }
        }
    }
}

/// Only a frontmatter with a name and no other type than `person` describes one.
pub proof fn a_person_has_a_name_and_no_other_type(v: YamlValue)
    ensures
        people::is_person(v) <==> {
            &&& yaml::yaml_get_str(v, "name"@) is Some
            &&& yaml::yaml_get(v, "type"@) matches Some(t) ==> yaml::untagged(t) is Null
                || yaml::yaml_str(t) == Some("person"@)
        },
{
}

/// What comes first stays first.
proof fn lemma_first_stays(s: Seq<AddressText>)
    requires
        s.len() > 0,
    ensures
        people::first_occurrences(s).len() > 0,
        people::first_occurrences(s)[0] == s[0],
    decreases s.len(),
{
    let rest = s.drop_last();
    if rest.len() > 0 {
        lemma_first_stays(rest);
        assert(rest[0] == s[0]);
    } else {
        assert(people::first_occurrences(rest).len() == 0);
        assert(!rest.contains(s.last()));
    }
}

/// The mail address that stands alone under `email` comes first.
pub proof fn the_address_under_email_comes_first(
    p: VaultPerson,
    file_path: Seq<char>,
    v: YamlValue,
    s: Seq<char>,
)
    requires
        people::describes(p, file_path, v),
        yaml::yaml_get(v, "email"@) matches Some(YamlValue::Str(t)) && t@ == s,
    ensures
        people::address_texts(p.addresses@).len() > 0,
        people::address_texts(p.addresses@)[0] == ("Email"@, s),
{
    let all = people::listed_addresses(v);
    assert(all[0] == ("Email"@, s));
    lemma_first_stays(all);
}

} // verus!
