//! The configuration file of the runtime: the channels that it names, and what
//! becomes of them in the store.
use vstd::prelude::*;
use vstd::string::StringExecFns;

use crate::adapters::email;
use crate::adapters::email::ImapSettings;
use crate::error::{joined, CoreError};
use crate::id;
use crate::id::{stable_channel_id, Uuid};
use crate::id_map;
use crate::id_map::IdMap;
use crate::runtime::status::ChannelStatus;
use crate::text::str_eq;
use crate::types::{Channel, ChannelConfig};

verus! {

/// A channel of the file. Its credentials are read both ways; which reading
/// counts depends on the kind.
#[derive(Debug)]
pub struct ChannelEntry {
    /// "email" or "telegram".
    pub kind: String,
    pub label: String,
    pub poll_interval_secs: u32,
    pub enabled: bool,
    /// The credentials as those of a mail account, or what is wrong with them.
    pub email: Result<EmailCredentials, String>,
    /// The credentials as those of a bot, or what is wrong with them.
    pub telegram: Result<TelegramCredentials, String>,
}

/// The credentials of a mail account.
#[derive(Debug)]
pub struct EmailCredentials {
    pub imap_host: String,
    pub imap_port: u16,
    pub smtp_host: String,
    pub smtp_port: u16,
    pub username: String,
    pub password: String,
    pub mailbox: String,
}

/// The credentials of a bot.
#[derive(Debug)]
pub struct TelegramCredentials {
    pub bot_token: String,
}

/// The mailbox of an account that names none.
pub fn default_mailbox() -> (r: String)
    ensures
        r@ == "INBOX"@,
{
    "INBOX".to_owned()
}

/// The file that is read where none is named.
pub fn default_config_path() -> (r: String)
    ensures
        r@ == "messagehub.toml"@,
{
    "messagehub.toml".to_owned()
}

/// The index of the first argument, from `from` on, that is `--config`; the
/// length if there is none.
pub open spec fn config_flag(args: Seq<String>, from: int) -> int
    decreases args.len() - from,
{
    if from >= args.len() {
        args.len() as int
    } else if args[from]@ == "--config"@ {
        from
    } else {
        config_flag(args, from + 1)
    }
}

/// The file that the arguments name: what follows the first `--config`.
pub fn parse_config_path(args: &Vec<String>) -> (r: String)
    ensures
        ({
            let k = config_flag(args@, 0);
            r@ == if k + 1 < args@.len() {
                args@[k + 1]@
            } else {
                "messagehub.toml"@
            }
        }),
{
    let mut i: usize = 0;
    while i < args.len()
        invariant
            i <= args@.len(),
            config_flag(args@, 0) == config_flag(args@, i as int),
        decreases args@.len() - i,
    {
        if str_eq(args[i].as_str(), "--config") {
            if args.len() - i > 1 {
                return args[i + 1].clone();
            }
            return default_config_path();
        }
        i += 1;
    }
    default_config_path()
}

/// What is said of a kind that is not known.
pub open spec fn unsupported(kind: Seq<char>) -> Seq<char> {
    "unsupported channel kind '"@ + kind + "'"@
}

fn write_unsupported(kind: &str) -> (r: String)
    ensures
        r@ == unsupported(kind@),
{
    let mut r = joined("unsupported channel kind '", kind);
    r.append("'");
    r
}

/// The channel of a kind.
pub open spec fn kind_channel(kind: Seq<char>) -> Option<Channel> {
    if kind == "email"@ {
        Some(Channel::Email)
    } else if kind == "telegram"@ {
        Some(Channel::Telegram)
    } else {
        None
    }
}

/// The channel of a kind.
pub fn channel_kind_from_toml(kind: &str) -> (r: Result<Channel, String>)
    ensures
        match kind_channel(kind@) {
            Some(c) => r is Ok && r->Ok_0 == c,
            None => r is Err && r->Err_0@ == unsupported(kind@),
        },
{
    if str_eq(kind, "email") {
        Ok(Channel::Email)
    } else if str_eq(kind, "telegram") {
        Ok(Channel::Telegram)
    } else {
        Err(write_unsupported(kind))
    }
}

/// What is said of credentials that cannot be read.
pub open spec fn bad_credentials(kind: Seq<char>, label: Seq<char>, e: Seq<char>) -> Seq<char> {
    kind + " channel '"@ + label + "': bad credentials — "@ + e
}

fn write_bad_credentials(kind: &str, label: &str, e: &str) -> (r: String)
    ensures
        r@ == bad_credentials(kind@, label@, e@),
{
    let mut r = joined(kind, " channel '");
    r.append(label);
    r.append("': bad credentials — ");
    r.append(e);
    r
}

/// The secret of a channel as its adapter reads it: `user:password` for mail,
/// the token for Telegram; or what is wrong.
pub open spec fn keychain_text(entry: ChannelEntry) -> Result<Seq<char>, Seq<char>> {
    match kind_channel(entry.kind@) {
        Some(Channel::Email) => match entry.email {
            Ok(c) => Ok(c.username@ + ":"@ + c.password@),
            Err(e) => Err(bad_credentials("email"@, entry.label@, e@)),
        },
        Some(_) => match entry.telegram {
            Ok(c) => Ok(c.bot_token@),
            Err(e) => Err(bad_credentials("telegram"@, entry.label@, e@)),
        },
        None => Err(unsupported(entry.kind@)),
    }
}

/// The secret of a channel as its adapter reads it.
pub fn credential_keychain_ref(entry: &ChannelEntry) -> (r: Result<String, String>)
    ensures
        match keychain_text(*entry) {
            Ok(t) => r is Ok && r->Ok_0@ == t,
            Err(e) => r is Err && r->Err_0@ == e,
        },
{
    match channel_kind_from_toml(entry.kind.as_str()) {
        Ok(Channel::Email) => match &entry.email {
            Ok(c) => {
                let mut r = joined(c.username.as_str(), ":");
                r.append(c.password.as_str());
                Ok(r)
            },
            Err(e) => Err(write_bad_credentials("email", entry.label.as_str(), e.as_str())),
        },
        Ok(_) => match &entry.telegram {
            Ok(c) => Ok(c.bot_token.clone()),
            Err(e) => Err(write_bad_credentials("telegram", entry.label.as_str(), e.as_str())),
        },
        Err(e) => Err(e),
    }
}

// ---------------------------------------------------------------------------
// The channels of the store
// ---------------------------------------------------------------------------

/// The identifier of an entry's channel.
pub open spec fn entry_id(entry: ChannelEntry) -> Uuid {
    Uuid { bits: id::uuid_v5(id::NAMESPACE_OID, id::channel_seed(entry.kind@, entry.label@)) }
}

/// The store is to get a channel for the entry.
pub open spec fn is_missing(existing: Seq<Uuid>, entry: ChannelEntry) -> bool {
    !existing.contains(entry_id(entry))
}

/// The entry stops the work: its channel is missing and its secret cannot be
/// read.
pub open spec fn stops(existing: Seq<Uuid>, entry: ChannelEntry) -> bool {
    is_missing(existing, entry) && keychain_text(entry) is Err
}

/// The index of the first entry, from `from` on, that stops the work; the length
/// if there is none.
pub open spec fn first_stop(existing: Seq<Uuid>, entries: Seq<ChannelEntry>, from: int) -> int
    decreases entries.len() - from,
{
    if from >= entries.len() {
        entries.len() as int
    } else if stops(existing, entries[from]) {
        from
    } else {
        first_stop(existing, entries, from + 1)
    }
}

/// The indices of the first `n` entries whose channel is missing, in order.
pub open spec fn missing(existing: Seq<Uuid>, entries: Seq<ChannelEntry>, n: nat) -> Seq<int>
    decreases n,
{
    if n == 0 {
        Seq::empty()
    } else {
        let before = missing(existing, entries, (n - 1) as nat);
        if is_missing(existing, entries[n - 1]) {
            before.push(n - 1)
        } else {
            before
        }
    }
}

/// `c` is the new channel of an entry.
pub open spec fn is_new_channel(c: ChannelConfig, entry: ChannelEntry) -> bool {
    &&& c.id == entry_id(entry)
    &&& kind_channel(entry.kind@) == Some(c.channel)
    &&& c.label@ == entry.label@
    &&& keychain_text(entry) == Ok::<Seq<char>, Seq<char>>(c.keychain_ref@)
    &&& c.enabled == entry.enabled
    &&& c.poll_interval_secs == entry.poll_interval_secs
    &&& c.last_sync_cursor is None
    &&& c.last_sync_at is None
    &&& c.status is Healthy
    &&& c.last_error is None
    &&& c.consecutive_failures == 0
}

/// The label of the last of the first `n` entries with this identifier.
pub open spec fn label_of(entries: Seq<ChannelEntry>, n: nat, channel: Uuid) -> Option<Seq<char>>
    decreases n,
{
    if n == 0 {
        None
    } else if entry_id(entries[n - 1]) == channel {
        Some(entries[n - 1].label@)
    } else {
        label_of(entries, (n - 1) as nat, channel)
    }
}

/// What comes of the entries.
pub struct Reconciled {
    /// The channels that the store gets, in order.
    pub inserts: Vec<ChannelConfig>,
    /// The labels of the channels, under their identifiers; or what stopped the
    /// work, once the channels before it are stored.
    pub labels: Result<IdMap<String>, String>,
}

/// `v` holds the new channels of the first `n` entries.
pub open spec fn are_inserts(
    v: Seq<ChannelConfig>,
    existing: Seq<Uuid>,
    entries: Seq<ChannelEntry>,
    n: nat,
) -> bool {
    &&& v.len() == missing(existing, entries, n).len()
    &&& forall|i: int|
        0 <= i < v.len() ==> is_new_channel(
            #[trigger] v[i],
            entries[missing(existing, entries, n)[i]],
        )
}

/// `m` holds the labels of the first `n` entries.
pub open spec fn are_labels(m: IdMap<String>, entries: Seq<ChannelEntry>, n: nat) -> bool {
    forall|channel: Uuid|
        match #[trigger] id_map::under(m@, channel) {
            Some(l) => label_of(entries, n, channel) == Some(l@),
            None => label_of(entries, n, channel) is None,
        }
}

fn holds_id(existing: &Vec<Uuid>, channel: Uuid) -> (r: bool)
    ensures
        r == existing@.contains(channel),
{
    for i in 0..existing.len()
        invariant
            forall|k: int| 0 <= k < i ==> existing@[k] != channel,
    {
        if existing[i] == channel {
            return true;
        }
    }
    false
}

/// What the store gets for the entries: a channel for each that it does not
/// know, up to the first whose secret cannot be read.
pub fn reconcile_channels(existing: &Vec<Uuid>, entries: &Vec<ChannelEntry>) -> (r: Reconciled)
    ensures
        ({
            let n = first_stop(existing@, entries@, 0);
            &&& are_inserts(r.inserts@, existing@, entries@, n as nat)
            &&& if n < entries@.len() {
                r.labels matches Err(e) && keychain_text(entries@[n]) == Err::<
                    Seq<char>,
                    Seq<char>,
                >(e@)
            } else {
                r.labels matches Ok(m) && m.well_formed() && are_labels(
                    m,
                    entries@,
                    entries@.len(),
                )
            }
        }),
{
    let mut inserts: Vec<ChannelConfig> = Vec::new();
    let mut labels: IdMap<String> = IdMap::new();
    let mut i: usize = 0;
    while i < entries.len()
        invariant
            i <= entries@.len(),
            first_stop(existing@, entries@, 0) == first_stop(existing@, entries@, i as int),
            are_inserts(inserts@, existing@, entries@, i as nat),
            labels.well_formed(),
            are_labels(labels, entries@, i as nat),
        decreases entries@.len() - i,
    {
        let entry = &entries[i];
        let channel_id = stable_channel_id(entry.kind.as_str(), entry.label.as_str());
        proof {
            assert(channel_id == entry_id(*entry));
        }
        let known = holds_id(existing, channel_id);
        if !known {
            let channel = channel_kind_from_toml(entry.kind.as_str());
            let keychain_ref = match credential_keychain_ref(entry) {
                Ok(k) => k,
                Err(e) => return Reconciled { inserts, labels: Err(e) },
            };
            let channel = match channel {
                Ok(c) => c,
                Err(e) => return Reconciled { inserts, labels: Err(e) },
            };
            let ghost before = inserts@;
            inserts.push(
                ChannelConfig {
                    id: channel_id,
                    channel,
                    label: entry.label.clone(),
                    keychain_ref,
                    enabled: entry.enabled,
                    poll_interval_secs: entry.poll_interval_secs,
                    last_sync_cursor: None,
                    last_sync_at: None,
                    status: ChannelStatus::Healthy,
                    last_error: None,
                    consecutive_failures: 0,
                },
            );
            proof {
                let old_missing = missing(existing@, entries@, i as nat);
                let new_missing = missing(existing@, entries@, (i + 1) as nat);
                assert(new_missing == old_missing.push(i as int));
                assert forall|k: int| 0 <= k < inserts@.len() implies is_new_channel(
                    #[trigger] inserts@[k],
                    entries@[new_missing[k]],
                ) by {
                    if k < before.len() {
                        assert(inserts@[k] == before[k]);
                        assert(new_missing[k] == old_missing[k]);
                    }
                }
            }
        }
        labels.insert(channel_id, entry.label.clone());
        i += 1;
    }
    Reconciled { inserts, labels: Ok(labels) }
}

// ---------------------------------------------------------------------------
// The accounts of the adapters
// ---------------------------------------------------------------------------

/// What is said of a mail channel whose servers cannot be read.
pub open spec fn bad_account(entry: ChannelEntry) -> Option<Seq<char>> {
    if entry.kind@ == "email"@ {
        match entry.email {
            Ok(_) => None,
            Err(e) => Some("email channel '"@ + entry.label@ + "': "@ + e@),
        }
    } else {
        None
    }
}

/// The index of the first entry, from `from` on, whose servers cannot be read;
/// the length if there is none.
pub open spec fn first_bad_account(entries: Seq<ChannelEntry>, from: int) -> int
    decreases entries.len() - from,
{
    if from >= entries.len() {
        entries.len() as int
    } else if bad_account(entries[from]) is Some {
        from
    } else {
        first_bad_account(entries, from + 1)
    }
}

/// The last of the first `n` entries for mail with this identifier.
pub open spec fn account_of(
    entries: Seq<ChannelEntry>,
    n: nat,
    channel: Uuid,
) -> Option<EmailCredentials>
    decreases n,
{
    if n == 0 {
        None
    } else if entries[n - 1].kind@ == "email"@ && entry_id(entries[n - 1]) == channel {
        match entries[n - 1].email {
            Ok(c) => Some(c),
            Err(_) => None,
        }
    } else {
        account_of(entries, (n - 1) as nat, channel)
    }
}

/// `s` holds the servers of an account.
pub open spec fn has_servers(s: ImapSettings, c: EmailCredentials) -> bool {
    &&& s.host@ == c.imap_host@
    &&& s.port == c.imap_port
    &&& s.smtp_host@ == c.smtp_host@
    &&& s.smtp_port == c.smtp_port
}

/// `m` holds the servers of the mail channels among the first `n` entries.
pub open spec fn are_accounts(m: IdMap<ImapSettings>, entries: Seq<ChannelEntry>, n: nat) -> bool {
    forall|channel: Uuid|
        match #[trigger] id_map::under(m@, channel) {
            Some(s) => account_of(entries, n, channel) is Some && has_servers(
                s,
                account_of(entries, n, channel)->0,
            ),
            None => account_of(entries, n, channel) is None,
        }
}

/// The servers of the mail channels, under their identifiers.
pub fn build_factories(entries: &Vec<ChannelEntry>) -> (r: Result<IdMap<ImapSettings>, String>)
    ensures
        ({
            let n = first_bad_account(entries@, 0);
            if n < entries@.len() {
                r matches Err(e) && bad_account(entries@[n]) == Some(e@)
            } else {
                r matches Ok(m) && m.well_formed() && are_accounts(m, entries@, entries@.len())
            }
        }),
{
    let mut accounts: IdMap<ImapSettings> = IdMap::new();
    let mut i: usize = 0;
    while i < entries.len()
        invariant
            i <= entries@.len(),
            first_bad_account(entries@, 0) == first_bad_account(entries@, i as int),
            accounts.well_formed(),
            are_accounts(accounts, entries@, i as nat),
        decreases entries@.len() - i,
    {
        let entry = &entries[i];
        if str_eq(entry.kind.as_str(), "email") {
            let channel_id = stable_channel_id(entry.kind.as_str(), entry.label.as_str());
            proof {
                assert(channel_id == entry_id(*entry));
            }
            match &entry.email {
                Ok(c) => {
                    accounts.insert(
                        channel_id,
                        ImapSettings {
                            host: c.imap_host.clone(),
                            port: c.imap_port,
                            smtp_host: c.smtp_host.clone(),
                            smtp_port: c.smtp_port,
                        },
                    );
                },
                Err(e) => {
                    let mut m = joined("email channel '", entry.label.as_str());
                    m.append("': ");
                    m.append(e.as_str());
                    return Err(m);
                },
            }
        }
        i += 1;
    }
    Ok(accounts)
}

/// The servers for the adapter of a stored mail channel.
pub fn email_settings(accounts: &IdMap<ImapSettings>, row: &ChannelConfig) -> (r: Result<
    ImapSettings,
    CoreError,
>)
    ensures
        match id_map::under(accounts@, row.id) {
            Some(s) => r is Ok && r->Ok_0@ == s@,
            None => r is Err && (r->Err_0 matches CoreError::InvalidInput(m) && m@
                == "runtime-demo: no email credentials for channel '"@ + row.label@ + "'"@),
        },
{
    match accounts.get(row.id) {
        Some(s) => Ok(
            ImapSettings {
                host: s.host.clone(),
                port: s.port,
                smtp_host: s.smtp_host.clone(),
                smtp_port: s.smtp_port,
            },
        ),
        None => {
            let mut m = joined(
                "runtime-demo: no email credentials for channel '",
                row.label.as_str(),
            );
            m.append("'");
            Err(CoreError::InvalidInput(m))
        },
    }
}

// ---------------------------------------------------------------------------
// Laws
// ---------------------------------------------------------------------------

/// The mail adapter takes the user and password of the file out of the secret
/// that the store keeps, where the user holds no colon.
pub proof fn mail_secret_comes_apart(entry: ChannelEntry)
    requires
        entry.kind@ == "email"@,
        entry.email is Ok,
        !entry.email->Ok_0.username@.contains(':'),
    ensures
        keychain_text(entry) is Ok,
        email::credentials(keychain_text(entry)->Ok_0) == Some(
            (entry.email->Ok_0.username@, entry.email->Ok_0.password@),
        ),
{
    email::credentials_come_apart(entry.email->Ok_0.username@, entry.email->Ok_0.password@);
}

/// A second run with the same entries stores nothing and does not stop,
/// whatever has become of the secrets.
pub proof fn known_channels_are_left_alone(existing: Seq<Uuid>, entries: Seq<ChannelEntry>)
    requires
        forall|i: int| 0 <= i < entries.len() ==> existing.contains(entry_id(#[trigger] entries[i])),
    ensures
        first_stop(existing, entries, 0) == entries.len(),
        missing(existing, entries, entries.len()).len() == 0,
{
    lemma_no_stop(existing, entries, 0);
    lemma_none_missing(existing, entries, entries.len());
}

proof fn lemma_no_stop(existing: Seq<Uuid>, entries: Seq<ChannelEntry>, from: int)
    requires
        0 <= from <= entries.len(),
        forall|i: int| 0 <= i < entries.len() ==> existing.contains(entry_id(#[trigger] entries[i])),
    ensures
        first_stop(existing, entries, from) == entries.len(),
    decreases entries.len() - from,
{
    if from < entries.len() {
        assert(existing.contains(entry_id(entries[from])));
        lemma_no_stop(existing, entries, from + 1);
    }
}

proof fn lemma_none_missing(existing: Seq<Uuid>, entries: Seq<ChannelEntry>, n: nat)
    requires
        n <= entries.len(),
        forall|i: int| 0 <= i < entries.len() ==> existing.contains(entry_id(#[trigger] entries[i])),
    ensures
        missing(existing, entries, n).len() == 0,
    decreases n,
{
    if n > 0 {
        assert(existing.contains(entry_id(entries[n - 1])));
        lemma_none_missing(existing, entries, (n - 1) as nat);
    }
}

} // verus!
