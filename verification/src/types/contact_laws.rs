//! What holds of the addresses of a contact and of lookups.
use vstd::prelude::*;

use crate::id::Uuid;
use crate::id_map;
use crate::text_map;
use crate::types::channel;
use crate::types::contact;
use crate::types::{Channel, ContactIdentity};

verus! {

proof fn lemma_address(v: Seq<ContactIdentity>, c: Channel, from: int, i: int)
    requires
        0 <= from <= i < v.len(),
        v[i].channel == c,
        forall|k: int| from <= k < i ==> (#[trigger] v[k]).channel != c,
    ensures
        contact::address_on(v, c, from) == Some(v[i].address@),
    decreases i - from,
{
    if from < i {
        lemma_address(v, c, from + 1, i);
    }
}

/// A contact is reached on a channel at the first of its addresses there.
pub proof fn a_contact_is_reached_at_its_first_address(
    v: Seq<ContactIdentity>,
    c: Channel,
    i: int,
)
    requires
        0 <= i < v.len(),
        v[i].channel == c,
        forall|k: int| 0 <= k < i ==> (#[trigger] v[k]).channel != c,
    ensures
        contact::address_on(v, c, 0) == Some(v[i].address@),
        contact::address_or_empty(v, c) == v[i].address@,
{
    lemma_address(v, c, 0, i);
}

proof fn lemma_no_address(v: Seq<ContactIdentity>, c: Channel, from: int)
    requires
        0 <= from <= v.len(),
        forall|k: int| from <= k < v.len() ==> (#[trigger] v[k]).channel != c,
    ensures
        contact::address_on(v, c, from) is None,
    decreases v.len() - from,
{
    if from < v.len() {
        lemma_no_address(v, c, from + 1);
    }
}

/// A contact without an address on a channel is not reached there.
pub proof fn a_contact_without_an_address_is_not_reached(v: Seq<ContactIdentity>, c: Channel)
    requires
        forall|k: int| 0 <= k < v.len() ==> (#[trigger] v[k]).channel != c,
    ensures
        contact::address_on(v, c, 0) is None,
        contact::address_or_empty(v, c).len() == 0,
{
    lemma_no_address(v, c, 0);
}

/// A channel is stored by the word for it.
pub proof fn a_channel_is_stored_by_its_word()
    ensures
        channel::channel_db_text(Channel::Email) == "Email"@,
        channel::channel_db_text(Channel::Sms) == "Sms"@,
        channel::channel_db_text(Channel::WhatsApp) == "WhatsApp"@,
        channel::channel_db_text(Channel::Teams) == "Teams"@,
        channel::channel_db_text(Channel::Telegram) == "Telegram"@,
{
}

proof fn lemma_key(v: Seq<(Seq<char>, Seq<char>)>, key: Seq<char>, from: int, i: int)
    requires
        0 <= from <= i < v.len(),
        v[i].0 == key,
        forall|k: int| from <= k < i ==> (#[trigger] v[k]).0 != key,
    ensures
        text_map::key_index(v, key, from) == i,
    decreases i - from,
{
    if from < i {
        lemma_key(v, key, from + 1, i);
    }
}

/// What a map holds under a key is what stands beside that key.
pub proof fn a_value_stands_beside_its_key(v: Seq<(Seq<char>, Seq<char>)>, i: int)
    requires
        text_map::distinct_keys(v),
        0 <= i < v.len(),
    ensures
        text_map::value_under(v, v[i].0) == Some(v[i].1),
{
    assert forall|k: int| 0 <= k < i implies (#[trigger] v[k]).0 != v[i].0 by {}
    lemma_key(v, v[i].0, 0, i);
}

/// What a map holds under an identifier is what stands beside it.
pub proof fn a_value_stands_beside_its_identifier<V>(v: Seq<(Uuid, V)>, i: int)
    requires
        id_map::distinct_ids(v),
        0 <= i < v.len(),
    ensures
        id_map::under(v, v[i].0) == Some(v[i].1),
{
    id_map::lemma_id_index_props(v, v[i].0, 0);
    let k = id_map::id_index(v, v[i].0, 0);
    if k < i {
        assert(v[k].0 == v[i].0);
    }
}

} // verus!
