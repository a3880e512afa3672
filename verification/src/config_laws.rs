//! What holds of the configuration file, whatever it names.
use vstd::prelude::*;

use crate::adapters::email::ImapSettings;
use crate::config;
use crate::config::{ChannelEntry, EmailCredentials};
use crate::id::Uuid;
use crate::types::{Channel, ChannelConfig};

verus! {

/// Where `--config` stands at `k` and nowhere before, it is found there.
proof fn lemma_flag(args: Seq<String>, from: int, k: int)
    requires
        0 <= from <= k < args.len(),
        args[k]@ == "--config"@,
        forall|i: int| from <= i < k ==> (#[trigger] args[i])@ != "--config"@,
    ensures
        config::config_flag(args, from) == k,
    decreases k - from,
{
    if from < k {
        lemma_flag(args, from + 1, k);
    }
}

/// The file is named by what follows the first `--config`, wherever it stands.
pub proof fn the_file_follows_its_flag(before: Seq<String>, flag: String, after: Seq<String>)
    requires
        flag@ == "--config"@,
        forall|i: int| 0 <= i < before.len() ==> (#[trigger] before[i])@ != "--config"@,
    ensures
        config::config_flag(before.push(flag) + after, 0) == before.len(),
        after.len() > 0 ==> (before.push(flag) + after)[config::config_flag(
            before.push(flag) + after,
            0,
        ) + 1] == after[0],
{
    let args = before.push(flag) + after;
    let k = before.len() as int;
    assert(args[k] == flag);
    assert forall|i: int| 0 <= i < k implies (#[trigger] args[i])@ != "--config"@ by {
        assert(args[i] == before[i]);
    }
    lemma_flag(args, 0, k);
}

/// A channel is one of mail or of Telegram, by the word for it.
pub proof fn kinds_are_named_by_their_words(kind: Seq<char>)
    ensures
        config::kind_channel("email"@) == Some(Channel::Email),
        config::kind_channel("telegram"@) == Some(Channel::Telegram),
        config::kind_channel(kind) is Some <==> kind == "email"@ || kind == "telegram"@,
{
    reveal_strlit("email");
    reveal_strlit("telegram");
    assert("email"@.len() == 5 && "telegram"@.len() == 8);
}

/// The secret of a mail channel is its user and its password with a colon between
/// them; that of a Telegram channel is its token.
pub proof fn a_secret_is_what_the_file_names(entry: ChannelEntry)
    ensures
        entry.kind@ == "email"@ ==> (entry.email matches Ok(c) ==> config::keychain_text(entry)
            == Ok::<Seq<char>, Seq<char>>(c.username@ + seq![':'] + c.password@)),
        entry.kind@ == "telegram"@ ==> (entry.telegram matches Ok(c) ==> config::keychain_text(
            entry,
        ) == Ok::<Seq<char>, Seq<char>>(c.bot_token@)),
        entry.kind@ == "email"@ && entry.email is Err ==> config::keychain_text(entry) is Err,
        entry.kind@ == "telegram"@ && entry.telegram is Err ==> config::keychain_text(
            entry,
        ) is Err,
        entry.kind@ != "email"@ && entry.kind@ != "telegram"@ ==> config::keychain_text(
            entry,
        ) is Err,
{
    kinds_are_named_by_their_words(entry.kind@);
    reveal_strlit(":");
    assert(":"@ =~= seq![':']);
}

proof fn lemma_missing(existing: Seq<Uuid>, entries: Seq<ChannelEntry>, n: nat, i: int)
    requires
        0 <= i < n <= entries.len(),
    ensures
        config::missing(existing, entries, n).contains(i) <==> !existing.contains(
            config::entry_id(entries[i]),
        ),
    decreases n,
{
    let all = config::missing(existing, entries, n);
    let before = config::missing(existing, entries, (n - 1) as nat);
    if i < n - 1 {
        lemma_missing(existing, entries, (n - 1) as nat, i);
        if before.contains(i) {
            let k = choose|k: int| 0 <= k < before.len() && before[k] == i;
            assert(all[k] == i);
        }
        if all.contains(i) {
            let k = choose|k: int| 0 <= k < all.len() && all[k] == i;
            assert(before[k] == i);
        }
    } else {
        lemma_missing_range(existing, entries, (n - 1) as nat);
        if config::is_missing(existing, entries[i]) {
            assert(all[all.len() - 1] == i);
        } else if all.contains(i) {
            let k = choose|k: int| 0 <= k < all.len() && all[k] == i;
            assert(before[k] == i);
        }
    }
}

proof fn lemma_missing_range(existing: Seq<Uuid>, entries: Seq<ChannelEntry>, n: nat)
    requires
        n <= entries.len(),
    ensures
        forall|a: int|
            0 <= a < config::missing(existing, entries, n).len() ==> 0
                <= #[trigger] config::missing(existing, entries, n)[a] < n,
        forall|a: int, b: int|
            0 <= a < b < config::missing(existing, entries, n).len() ==> #[trigger] config::missing(
                existing,
                entries,
                n,
            )[a] < #[trigger] config::missing(existing, entries, n)[b],
    decreases n,
{
    if n > 0 {
        lemma_missing_range(existing, entries, (n - 1) as nat);
        let before = config::missing(existing, entries, (n - 1) as nat);
        let all = config::missing(existing, entries, n);
        assert forall|a: int| 0 <= a < all.len() implies 0 <= #[trigger] all[a] < n by {
            if a < before.len() {
                assert(all[a] == before[a]);
            }
        }
        assert forall|a: int, b: int| 0 <= a < b < all.len() implies #[trigger] all[a]
            < #[trigger] all[b] by {
            assert(all[a] == before[a]);
            if b < before.len() {
                assert(all[b] == before[b]);
            }
        }
    }
}

/// Each channel of the file that the store does not know is stored, with the label,
/// the interval and the switch that the file gives it, healthy and never synced.
pub proof fn each_unknown_channel_is_stored(
    v: Seq<ChannelConfig>,
    existing: Seq<Uuid>,
    entries: Seq<ChannelEntry>,
    i: int,
)
    requires
        config::are_inserts(v, existing, entries, entries.len()),
        0 <= i < entries.len(),
        !existing.contains(config::entry_id(entries[i])),
    ensures
        exists|k: int| #![trigger v[k]]
            0 <= k < v.len() && {
                &&& v[k].id == config::entry_id(entries[i])
                &&& v[k].label@ == entries[i].label@
                &&& v[k].enabled == entries[i].enabled
                &&& v[k].poll_interval_secs == entries[i].poll_interval_secs
                &&& config::kind_channel(entries[i].kind@) == Some(v[k].channel)
                &&& v[k].status is Healthy
                &&& v[k].consecutive_failures == 0
                &&& v[k].last_sync_at is None
                &&& v[k].last_sync_cursor is None
                &&& v[k].last_error is None
            },
{
    lemma_missing(existing, entries, entries.len(), i);
    let all = config::missing(existing, entries, entries.len());
    let k = choose|k: int| 0 <= k < all.len() && all[k] == i;
    assert(config::is_new_channel(v[k], entries[all[k]]));
}

/// What the store knows already is not stored again, and what is stored comes in
/// the order of the file.
pub proof fn a_known_channel_is_left(
    v: Seq<ChannelConfig>,
    existing: Seq<Uuid>,
    entries: Seq<ChannelEntry>,
    n: nat,
    k: int,
)
    requires
        config::are_inserts(v, existing, entries, n),
        n <= entries.len(),
        0 <= k < v.len(),
    ensures
        !existing.contains(v[k].id),
        forall|j: int|
            k < j < v.len() ==> config::missing(existing, entries, n)[k] < #[trigger] config::missing(
                existing,
                entries,
                n,
            )[j],
{
    lemma_missing_range(existing, entries, n);
    let all = config::missing(existing, entries, n);
    let i = all[k];
    assert(config::is_new_channel(v[k], entries[i]));
    assert(all.contains(i));
    lemma_missing(existing, entries, n, i);
}

proof fn lemma_first_stop(
    existing: Seq<Uuid>,
    entries: Seq<ChannelEntry>,
    from: int,
)
    requires
        0 <= from <= entries.len(),
    ensures
        ({
            let n = config::first_stop(existing, entries, from);
            &&& from <= n <= entries.len()
            &&& n < entries.len() ==> config::stops(existing, entries[n])
            &&& forall|i: int|
                from <= i < n ==> !config::stops(existing, #[trigger] entries[i])
        }),
    decreases entries.len() - from,
{
    if from < entries.len() && !config::stops(existing, entries[from]) {
        lemma_first_stop(existing, entries, from + 1);
    }
}

/// The work goes through to the end where each channel that the store does not know
/// has a secret that can be read, and else stops at the first that has none.
pub proof fn an_unreadable_secret_stops_the_work(
    existing: Seq<Uuid>,
    entries: Seq<ChannelEntry>,
    i: int,
)
    requires
        0 <= i < entries.len(),
        forall|k: int|
            0 <= k < i ==> existing.contains(config::entry_id(#[trigger] entries[k]))
                || config::keychain_text(entries[k]) is Ok,
    ensures
        config::first_stop(existing, entries, 0) >= i,
        config::first_stop(existing, entries, 0) == i <==> !existing.contains(
            config::entry_id(entries[i]),
        ) && config::keychain_text(entries[i]) is Err,
{
    lemma_first_stop(existing, entries, 0);
    let n = config::first_stop(existing, entries, 0);
    if n < i {
        assert(config::stops(existing, entries[n]));
    }
}

/// A channel is known by the label of its entry: of the last, where the file names
/// it more than once.
pub proof fn a_channel_has_the_label_of_its_entry(
    entries: Seq<ChannelEntry>,
    n: nat,
    i: int,
    channel: Uuid,
)
    requires
        0 <= i < n <= entries.len(),
        config::entry_id(entries[i]) == channel,
        forall|k: int| i < k < n ==> config::entry_id(#[trigger] entries[k]) != channel,
    ensures
        config::label_of(entries, n, channel) == Some(entries[i].label@),
        entries[i].kind@ == "email"@ ==> (entries[i].email matches Ok(c) ==> config::account_of(
            entries,
            n,
            channel,
        ) == Some(c)),
    decreases n - i,
{
    if i < n - 1 {
        assert(config::entry_id(entries[n - 1]) != channel);
        a_channel_has_the_label_of_its_entry(entries, (n - 1) as nat, i, channel);
    }
}

/// A channel that no entry names has no label and no servers.
pub proof fn a_channel_without_an_entry_has_no_label(
    entries: Seq<ChannelEntry>,
    n: nat,
    channel: Uuid,
)
    requires
        n <= entries.len(),
        forall|k: int| 0 <= k < n ==> config::entry_id(#[trigger] entries[k]) != channel,
    ensures
        config::label_of(entries, n, channel) is None,
        config::account_of(entries, n, channel) is None,
    decreases n,
{
    if n > 0 {
        assert(config::entry_id(entries[n - 1]) != channel);
        a_channel_without_an_entry_has_no_label(entries, (n - 1) as nat, channel);
    }
}

/// The adapter of a mail channel gets the servers that the file names for it, each
/// with its port.
pub proof fn an_account_has_the_servers_of_its_entry(s: ImapSettings, c: EmailCredentials)
    requires
        config::has_servers(s, c),
    ensures
        s.host@ == c.imap_host@,
        s.port == c.imap_port,
        s.smtp_host@ == c.smtp_host@,
        s.smtp_port == c.smtp_port,
{
}

} // verus!
