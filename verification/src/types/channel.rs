//! Channels.
use vstd::prelude::*;

use crate::id::Uuid;
use crate::runtime::status::ChannelStatus;
use crate::text::str_eq;
use crate::time::Timestamp;

verus! {

/// The kinds of channel.
#[derive(Clone, Copy, Debug, PartialEq, Eq, Hash, Structural)]
pub enum Channel {
    Email,
    Sms,
    WhatsApp,
    Teams,
    Telegram,
}

/// The name of a channel for people.
pub open spec fn channel_name(c: Channel) -> Seq<char> {
    match c {
        Channel::Email => "Email"@,
        Channel::Sms => "SMS"@,
        Channel::WhatsApp => "WhatsApp"@,
        Channel::Teams => "Teams"@,
        Channel::Telegram => "Telegram"@,
    }
}

/// The text by which a channel is stored.
pub open spec fn channel_db_text(c: Channel) -> Seq<char> {
    match c {
        Channel::Email => "Email"@,
        Channel::Sms => "Sms"@,
        Channel::WhatsApp => "WhatsApp"@,
        Channel::Teams => "Teams"@,
        Channel::Telegram => "Telegram"@,
    }
}

/// No two channels are stored by the same text.
pub proof fn channel_db_text_is_injective(a: Channel, b: Channel)
    requires
        channel_db_text(a) == channel_db_text(b),
    ensures
        a == b,
{
    reveal_strlit("Email");
    reveal_strlit("Sms");
    reveal_strlit("WhatsApp");
    reveal_strlit("Teams");
    reveal_strlit("Telegram");
    assert("Email"@[0] == 'E' && "Sms"@[0] == 'S' && "WhatsApp"@[0] == 'W');
    assert("Teams"@.len() == 5 && "Telegram"@.len() == 8);
    assert("Teams"@[0] == 'T' && "Telegram"@[0] == 'T');
    assert(channel_db_text(a)[0] == channel_db_text(b)[0]);
    assert(channel_db_text(a).len() == channel_db_text(b).len());
    match a {
        Channel::Email => assert(b is Email),
        Channel::Sms => assert(b is Sms),
        Channel::WhatsApp => assert(b is WhatsApp),
        Channel::Teams => assert(b is Teams),
        Channel::Telegram => assert(b is Telegram),
    }
}

impl Channel {
    /// The name of the channel for people.
    pub fn display_name(&self) -> (r: &'static str)
        ensures
            r@ == channel_name(*self),
    {
        match self {
            Channel::Email => "Email",
            Channel::Sms => "SMS",
            Channel::WhatsApp => "WhatsApp",
            Channel::Teams => "Teams",
            Channel::Telegram => "Telegram",
        }
    }

    /// The text by which the channel is stored.
    pub fn to_db_str(&self) -> (r: &'static str)
        ensures
            r@ == channel_db_text(*self),
    {
        match self {
            Channel::Email => "Email",
            Channel::Sms => "Sms",
            Channel::WhatsApp => "WhatsApp",
            Channel::Teams => "Teams",
            Channel::Telegram => "Telegram",
        }
    }

    /// The channel stored by `text`, where there is one.
    pub fn from_db_str(text: &str) -> (r: Option<Channel>)
        ensures
            r is Some ==> channel_db_text(r->0) == text@,
            r is None ==> forall|c: Channel| #[trigger] channel_db_text(c) != text@,
            forall|c: Channel| #[trigger] channel_db_text(c) == text@ ==> r == Some(c),
    {
        proof {
            assert forall|a: Channel, b: Channel|
                #[trigger] channel_db_text(a) == #[trigger] channel_db_text(b) implies a == b by {
                channel_db_text_is_injective(a, b);
            }
        }
        if str_eq(text, "Email") {
            assert(channel_db_text(Channel::Email) == text@);
            Some(Channel::Email)
        } else if str_eq(text, "Sms") {
            assert(channel_db_text(Channel::Sms) == text@);
            Some(Channel::Sms)
        } else if str_eq(text, "WhatsApp") {
            assert(channel_db_text(Channel::WhatsApp) == text@);
            Some(Channel::WhatsApp)
        } else if str_eq(text, "Teams") {
            assert(channel_db_text(Channel::Teams) == text@);
            Some(Channel::Teams)
        } else if str_eq(text, "Telegram") {
            assert(channel_db_text(Channel::Telegram) == text@);
            Some(Channel::Telegram)
        } else {
            None
        }
    }
}

/// A configured channel.
#[derive(Debug)]
pub struct ChannelConfig {
    pub id: Uuid,
    pub channel: Channel,
    pub label: String,
    /// The name of the entry of the system's keychain that holds the secret.
    pub keychain_ref: String,
    pub enabled: bool,
    pub poll_interval_secs: u32,
    pub last_sync_cursor: Option<String>,
    pub last_sync_at: Option<Timestamp>,
    pub status: ChannelStatus,
    pub last_error: Option<String>,
    pub consecutive_failures: u32,
}

} // verus!
