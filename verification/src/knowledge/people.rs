//! People, as their vault files describe them.
use vstd::prelude::*;

use crate::error::CoreError;
use crate::knowledge::yaml;
use crate::knowledge::yaml::YamlValue;
use crate::text::str_eq;

verus! {

/// An address of a person on a channel.
#[derive(Debug)]
pub struct PersonAddress {
    /// The channel, by the text that it is stored by.
    pub channel: String,
    pub address: String,
}

/// A person of the vault.
#[derive(Debug)]
pub struct VaultPerson<'a> {
    pub file_path: String,
    pub name: String,
    pub role: Option<String>,
    pub tags: Vec<String>,
    pub last_contact: Option<String>,
    /// Where the person can be reached, without repetition.
    pub addresses: Vec<PersonAddress>,
    /// The whole frontmatter.
    pub frontmatter: &'a YamlValue,
}

/// A channel and an address on it.
pub type AddressText = (Seq<char>, Seq<char>);

impl View for PersonAddress {
    type V = AddressText;

    open spec fn view(&self) -> AddressText {
        (self.channel@, self.address@)
    }
}

/// The addresses that a vector holds.
pub open spec fn address_texts(v: Seq<PersonAddress>) -> Seq<AddressText> {
    v.map_values(|a: PersonAddress| a@)
}

/// The texts of the items that are strings.
pub open spec fn string_items(items: Seq<YamlValue>) -> Seq<Seq<char>>
    decreases items.len(),
{
    if items.len() == 0 {
        Seq::empty()
    } else {
        let before = string_items(items.drop_last());
        match yaml::yaml_str(items.last()) {
            Some(s) => before.push(s),
            None => before,
        }
    }
}

/// The tags: the strings of the sequence under `tags`.
pub open spec fn tags_of(v: YamlValue) -> Seq<Seq<char>> {
    match yaml::yaml_get(v, "tags"@) {
        Some(t) => match yaml::yaml_items(t) {
            Some(items) => string_items(items),
            None => Seq::empty(),
        },
        None => Seq::empty(),
    }
}

/// Each text as an address of the channel.
pub open spec fn on_channel(channel: Seq<char>, texts: Seq<Seq<char>>) -> Seq<AddressText> {
    texts.map_values(|t: Seq<char>| (channel, t))
}

/// The addresses under `key`: a string is one, a sequence has one in each of
/// its strings.
pub open spec fn string_or_list(v: YamlValue, key: Seq<char>, channel: Seq<char>) -> Seq<
    AddressText,
> {
    match yaml::yaml_get(v, key) {
        Some(YamlValue::Str(s)) => seq![(channel, s@)],
        Some(YamlValue::Sequence(items)) => on_channel(channel, string_items(items@)),
        _ => Seq::empty(),
    }
}

/// The texts under `address` of the items that have one.
pub open spec fn account_items(items: Seq<YamlValue>) -> Seq<Seq<char>>
    decreases items.len(),
{
    if items.len() == 0 {
        Seq::empty()
    } else {
        let before = account_items(items.drop_last());
        match yaml::yaml_get_str(items.last(), "address"@) {
            Some(s) => before.push(s),
            None => before,
        }
    }
}

/// The addresses of the accounts under `email-accounts`.
pub open spec fn account_addresses(v: YamlValue) -> Seq<AddressText> {
    match yaml::yaml_get(v, "email-accounts"@) {
        Some(a) => match yaml::yaml_items(a) {
            Some(items) => on_channel("Email"@, account_items(items)),
            None => Seq::empty(),
        },
        None => Seq::empty(),
    }
}

/// All addresses of a frontmatter, in the order of the fields that hold them.
pub open spec fn listed_addresses(v: YamlValue) -> Seq<AddressText> {
    string_or_list(v, "email"@, "Email"@) + string_or_list(v, "emails"@, "Email"@)
        + account_addresses(v) + string_or_list(v, "telegram"@, "Telegram"@) + string_or_list(
        v,
        "telegram-username"@,
        "Telegram"@,
    ) + string_or_list(v, "whatsapp"@, "WhatsApp"@) + string_or_list(
        v,
        "phone-whatsapp"@,
        "WhatsApp"@,
    ) + string_or_list(v, "sms"@, "Sms"@) + string_or_list(v, "phone-sms"@, "Sms"@)
        + string_or_list(v, "teams"@, "Teams"@) + string_or_list(v, "teams-email"@, "Teams"@)
}

/// The items of `s` without those that stood before.
pub open spec fn first_occurrences(s: Seq<AddressText>) -> Seq<AddressText>
    decreases s.len(),
{
    if s.len() == 0 {
        Seq::empty()
    } else {
        let before = first_occurrences(s.drop_last());
        if s.drop_last().contains(s.last()) {
            before
        } else {
            before.push(s.last())
        }
    }
}

/// The type leaves room for a person: it is absent, null or `person`.
pub open spec fn person_type(t: Option<YamlValue>) -> bool {
    match t {
        Some(x) => yaml::untagged(x) is Null || yaml::yaml_str(x) == Some("person"@),
        None => true,
    }
}

/// A frontmatter describes a person: it has a name, and no type but `person`.
pub open spec fn is_person(v: YamlValue) -> bool {
    &&& yaml::yaml_get_str(v, "name"@) is Some
    &&& person_type(yaml::yaml_get(v, "type"@))
}

/// The text of an optional string.
pub open spec fn same_text(o: Option<String>, t: Option<Seq<char>>) -> bool {
    match o {
        Some(s) => t == Some(s@),
        None => t is None,
    }
}

/// The person that a frontmatter describes.
pub open spec fn describes(p: VaultPerson, file_path: Seq<char>, v: YamlValue) -> bool {
    &&& p.file_path@ == file_path
    &&& yaml::yaml_get_str(v, "name"@) == Some(p.name@)
    &&& same_text(p.role, yaml::yaml_get_str(v, "role"@))
    &&& same_text(p.last_contact, yaml::yaml_get_str(v, "last-contact"@))
    &&& p.tags@.map_values(|s: String| s@) == tags_of(v)
    &&& address_texts(p.addresses@) == first_occurrences(listed_addresses(v))
    &&& *p.frontmatter == v
}

/// The strings among the items.
fn collect_strings(items: &Vec<YamlValue>) -> (r: Vec<String>)
    ensures
        r@.map_values(|s: String| s@) == string_items(items@),
{
    let mut r: Vec<String> = Vec::new();
    proof {
        assert(items@.take(0) =~= Seq::empty());
        assert(r@.map_values(|s: String| s@) =~= Seq::empty());
    }
    for i in 0..items.len()
        invariant
            r@.map_values(|s: String| s@) == string_items(items@.take(i as int)),
    {
        let ghost before = r@.map_values(|s: String| s@);
        proof {
            assert(items@.take(i + 1).drop_last() =~= items@.take(i as int));
        }
        if let Some(s) = items[i].as_str() {
            r.push(s.to_owned());
            proof {
                assert(r@.map_values(|s: String| s@) =~= before.push(s@));
            }
        }
    }
    proof {
        assert(items@.take(items@.len() as int) =~= items@);
    }
    r
}

/// Adds each text as an address of the channel.
fn push_addresses(out: &mut Vec<PersonAddress>, channel: &str, texts: &Vec<String>)
    ensures
        address_texts(final(out)@) == address_texts(old(out)@) + on_channel(
            channel@,
            texts@.map_values(|s: String| s@),
        ),
{
    let ghost start = address_texts(out@);
    let ghost all = on_channel(channel@, texts@.map_values(|s: String| s@));
    proof {
        assert(start + all.take(0) =~= start);
    }
    for i in 0..texts.len()
        invariant
            all == on_channel(channel@, texts@.map_values(|s: String| s@)),
            address_texts(out@) == start + all.take(i as int),
    {
        let ghost before = address_texts(out@);
        out.push(PersonAddress { channel: channel.to_owned(), address: texts[i].clone() });
        proof {
            assert(address_texts(out@) =~= before.push((channel@, texts@[i as int]@)));
            assert(all.take(i + 1) =~= all.take(i as int).push(all[i as int]));
            assert(address_texts(out@) =~= start + all.take(i + 1));
        }
    }
    proof {
        assert(all.take(all.len() as int) =~= all);
    }
}

/// Adds the addresses under `key`.
fn collect_string_or_list(
    frontmatter: &YamlValue,
    key: &str,
    out: &mut Vec<PersonAddress>,
    channel: &str,
)
    ensures
        address_texts(final(out)@) == address_texts(old(out)@) + string_or_list(
            *frontmatter,
            key@,
            channel@,
        ),
{
    let ghost before = address_texts(out@);
    match frontmatter.get(key) {
        Some(YamlValue::Str(s)) => {
            out.push(PersonAddress { channel: channel.to_owned(), address: s.clone() });
            proof {
                assert(address_texts(out@) =~= before + seq![(channel@, s@)]);
            }
        },
        Some(YamlValue::Sequence(items)) => {
            let texts = collect_strings(items);
            push_addresses(out, channel, &texts);
        },
        _ => {
            proof {
                assert(address_texts(out@) =~= before + string_or_list(
                    *frontmatter,
                    key@,
                    channel@,
                ));
            }
        },
    }
}

/// Adds the addresses of the accounts.
fn collect_accounts(frontmatter: &YamlValue, out: &mut Vec<PersonAddress>)
    ensures
        address_texts(final(out)@) == address_texts(old(out)@) + account_addresses(*frontmatter),
{
    let ghost before = address_texts(out@);
    if let Some(accounts) = frontmatter.get("email-accounts") {
        if let Some(items) = accounts.as_sequence() {
            let mut texts: Vec<String> = Vec::new();
            proof {
                assert(items@.take(0) =~= Seq::empty());
                assert(texts@.map_values(|s: String| s@) =~= Seq::empty());
            }
            for i in 0..items.len()
                invariant
                    texts@.map_values(|s: String| s@) == account_items(items@.take(i as int)),
            {
                let ghost so_far = texts@.map_values(|s: String| s@);
                proof {
                    assert(items@.take(i + 1).drop_last() =~= items@.take(i as int));
                }
                if let Some(s) = items[i].get_string("address") {
                    texts.push(s);
                    proof {
                        assert(texts@.map_values(|s: String| s@) =~= so_far.push(s@));
                    }
                }
            }
            proof {
                assert(items@.take(items@.len() as int) =~= items@);
            }
            push_addresses(out, "Email", &texts);
            return;
        }
    }
    proof {
        assert(address_texts(out@) =~= before + account_addresses(*frontmatter));
    }
}

/// The addresses without those that stood before.
fn without_repetition(all: Vec<PersonAddress>) -> (r: Vec<PersonAddress>)
    ensures
        address_texts(r@) == first_occurrences(address_texts(all@)),
{
    let ghost whole = address_texts(all@);
    let mut r: Vec<PersonAddress> = Vec::new();
    proof {
        assert(whole.take(0) =~= Seq::empty());
        assert(address_texts(r@) =~= Seq::empty());
    }
    for i in 0..all.len()
        invariant
            whole == address_texts(all@),
            address_texts(r@) == first_occurrences(whole.take(i as int)),
    {
        let ghost before = address_texts(r@);
        let mut seen: bool = false;
        for k in 0..i
            invariant
                i < all@.len(),
                whole == address_texts(all@),
                seen == whole.take(k as int).contains(whole[i as int]),
        {
            let same: bool = str_eq(all[k].channel.as_str(), all[i].channel.as_str()) && str_eq(
                all[k].address.as_str(),
                all[i].address.as_str(),
            );
            proof {
                let x = whole[i as int];
                let shorter = whole.take(k as int);
                let longer = whole.take(k + 1);
                assert(same == (whole[k as int] == x));
                assert(longer[k as int] == whole[k as int]);
                if shorter.contains(x) {
                    let y = choose|y: int| 0 <= y < shorter.len() && shorter[y] == x;
                    assert(longer[y] == x);
                }
                if longer.contains(x) {
                    let y = choose|y: int| 0 <= y < longer.len() && longer[y] == x;
                    if y < k {
                        assert(shorter[y] == x);
                    }
                }
            }
            seen = seen || same;
        }
        proof {
            assert(whole.take(i + 1).drop_last() =~= whole.take(i as int));
            assert(whole.take(i + 1).last() == whole[i as int]);
        }
        if !seen {
            r.push(
                PersonAddress {
                    channel: all[i].channel.clone(),
                    address: all[i].address.clone(),
                },
            );
            proof {
                assert(address_texts(r@) =~= before.push(whole[i as int]));
            }
        }
    }
    proof {
        assert(whole.take(whole.len() as int) =~= whole);
    }
    r
}

/// The addresses of a frontmatter, from the fields that are known to hold them.
fn extract_addresses(frontmatter: &YamlValue) -> (r: Vec<PersonAddress>)
    ensures
        address_texts(r@) == first_occurrences(listed_addresses(*frontmatter)),
{
    let mut out: Vec<PersonAddress> = Vec::new();
    proof {
        assert(address_texts(out@) =~= Seq::empty());
        assert(address_texts(out@) + string_or_list(*frontmatter, "email"@, "Email"@)
            =~= string_or_list(*frontmatter, "email"@, "Email"@));
    }
    collect_string_or_list(frontmatter, "email", &mut out, "Email");
    collect_string_or_list(frontmatter, "emails", &mut out, "Email");
    collect_accounts(frontmatter, &mut out);
    collect_string_or_list(frontmatter, "telegram", &mut out, "Telegram");
    collect_string_or_list(frontmatter, "telegram-username", &mut out, "Telegram");
    collect_string_or_list(frontmatter, "whatsapp", &mut out, "WhatsApp");
    collect_string_or_list(frontmatter, "phone-whatsapp", &mut out, "WhatsApp");
    collect_string_or_list(frontmatter, "sms", &mut out, "Sms");
    collect_string_or_list(frontmatter, "phone-sms", &mut out, "Sms");
    collect_string_or_list(frontmatter, "teams", &mut out, "Teams");
    collect_string_or_list(frontmatter, "teams-email", &mut out, "Teams");
    without_repetition(out)
}

/// The person that a frontmatter describes; none where it describes no person.
pub fn extract_person<'a>(file_path: &str, frontmatter: &'a YamlValue) -> (r: Result<
    Option<VaultPerson<'a>>,
    CoreError,
>)
    ensures
        r is Ok,
        r->Ok_0 is Some <==> is_person(*frontmatter),
        r->Ok_0 matches Some(p) ==> describes(p, file_path@, *frontmatter),
{
    let name = match frontmatter.get_string("name") {
        Some(n) => n,
        None => return Ok(None),
    };
    if let Some(t) = frontmatter.get("type") {
        let fits = match t.untag() {
            YamlValue::Null => true,
            YamlValue::Str(s) => str_eq(s.as_str(), "person"),
            _ => false,
        };
        if !fits {
            return Ok(None);
        }
    }
    let tags = match frontmatter.get("tags") {
        Some(v) => match v.as_sequence() {
            Some(items) => collect_strings(items),
            None => Vec::new(),
        },
        None => Vec::new(),
    };
    proof {
        assert(tags@.map_values(|s: String| s@) =~= tags_of(*frontmatter));
    }
    Ok(
        Some(VaultPerson {
            file_path: file_path.to_owned(),
            name,
            role: frontmatter.get_string("role"),
            tags,
            last_contact: frontmatter.get_string("last-contact"),
            addresses: extract_addresses(frontmatter),
            frontmatter,
        }),
    )
}

// ---------------------------------------------------------------------------
// Laws
// ---------------------------------------------------------------------------

/// Dropping repetitions keeps every item, and each once.
pub proof fn first_occurrences_are_distinct(s: Seq<AddressText>)
    ensures
        first_occurrences(s).no_duplicates(),
        forall|x: AddressText| #[trigger] first_occurrences(s).contains(x) <==> s.contains(x),
    decreases s.len(),
{
    if s.len() > 0 {
        let t = s.drop_last();
        let before = first_occurrences(t);
        let r = first_occurrences(s);
        first_occurrences_are_distinct(t);
        assert(s =~= t.push(s.last()));
        assert forall|x: AddressText| #[trigger] r.contains(x) <==> s.contains(x) by {
            if t.contains(x) {
                assert(before.contains(x));
                let i = choose|i: int| 0 <= i < before.len() && before[i] == x;
                assert(r[i] == x);
                let j = choose|j: int| 0 <= j < t.len() && t[j] == x;
                assert(s[j] == x);
            } else if x == s.last() {
                assert(s[s.len() - 1] == x);
                assert(r.last() == x);
                assert(r[r.len() - 1] == x);
            } else {
                if r.contains(x) {
                    let i = choose|i: int| 0 <= i < r.len() && r[i] == x;
                    assert(before[i] == x);
                    assert(before.contains(x));
                }
                if s.contains(x) {
                    let j = choose|j: int| 0 <= j < s.len() && s[j] == x;
                    assert(t[j] == x);
                }
            }
        }
        if !t.contains(s.last()) {
            assert(!before.contains(s.last()));
            assert forall|i: int, j: int| 0 <= i < r.len() && 0 <= j < r.len() && i != j implies r[i]
                != r[j] by {
                if i == r.len() - 1 {
                    assert(before[j] == r[j]);
                } else if j == r.len() - 1 {
                    assert(before[i] == r[i]);
                }
            }
        }
    }
}

} // verus!
