//! Contacts.
use vstd::prelude::*;

use crate::id::Uuid;
use crate::time::Timestamp;
use crate::types::channel::Channel;

verus! {

/// An address of a contact on a channel.
#[derive(Debug)]
pub struct ContactIdentity {
    pub channel: Channel,
    pub address: String,
}

/// Someone who writes or is written to.
#[derive(Debug)]
pub struct Contact {
    pub id: Uuid,
    pub display_name: String,
    pub identities: Vec<ContactIdentity>,
    /// The vault file that describes the contact.
    pub vault_ref: Option<String>,
    pub created_at: Timestamp,
    pub updated_at: Timestamp,
}

/// The address of the first identity on `channel`, from `from` on.
pub open spec fn address_on(
    identities: Seq<ContactIdentity>,
    channel: Channel,
    from: int,
) -> Option<Seq<char>>
    decreases identities.len() - from,
{
    if from >= identities.len() {
        None
    } else if identities[from].channel == channel {
        Some(identities[from].address@)
    } else {
        address_on(identities, channel, from + 1)
    }
}

/// The address, or the empty text where there is none.
pub open spec fn address_or_empty(
    identities: Seq<ContactIdentity>,
    channel: Channel,
) -> Seq<char> {
    match address_on(identities, channel, 0) {
        Some(a) => a,
        None => Seq::empty(),
    }
}

impl Contact {
    /// The address of the contact's first identity on `channel`.
    pub fn address_on(&self, channel: Channel) -> (r: Option<String>)
        ensures
            r is Some <==> address_on(self.identities@, channel, 0) is Some,
            r is Some ==> r->0@ == address_on(self.identities@, channel, 0)->0,
    {
        let mut i: usize = 0;
        while i < self.identities.len()
            invariant
                i <= self.identities@.len(),
                address_on(self.identities@, channel, i as int) == address_on(
                    self.identities@,
                    channel,
                    0,
                ),
            decreases self.identities@.len() - i,
        {
            if self.identities[i].channel == channel {
                return Some(self.identities[i].address.clone());
            }
            i += 1;
        }
        None
    }

    /// The address of the contact's first identity on `channel`, or the empty
    /// text.
    pub fn address_or_empty(&self, channel: Channel) -> (r: String)
        ensures
            r@ == address_or_empty(self.identities@, channel),
    {
        match self.address_on(channel) {
            Some(a) => a,
            None => {
                let r = String::new();
                proof {
                    assert(r@ =~= Seq::empty());
                }
                r
            },
        }
    }
}

} // verus!
